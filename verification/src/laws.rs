//! The engine's guarantees, stated and proved over the assembly model.

use vstd::prelude::*;

use crate::engine::{
    assembled, env_lookup, load_outcome, merged, missing_names, missing_upto, rec_lookup,
};
use crate::error::ErrorModel;
use crate::schema::{field_index, lemma_field_index, names_unique, FieldModel};
use crate::source::toml_partial;
use crate::text::{convert_env, env_key};
use crate::value::{RawModel, ValueModel};

verus! {

proof fn lemma_missing_upto_props(schema: Seq<FieldModel>, slots: Seq<Option<ValueModel>>, n: int)
    requires
        names_unique(schema),
        slots.len() == schema.len(),
        0 <= n <= schema.len(),
    ensures
        forall|i: int|
            0 <= i < n && (#[trigger] schema[i]).required && slots[i] is None ==> missing_upto(
                schema,
                slots,
                n,
            ).contains(schema[i].name),
        forall|k: int|
            0 <= k < missing_upto(schema, slots, n).len() ==> {
                let fi = #[trigger] field_index(schema, missing_upto(schema, slots, n)[k]);
                &&& 0 <= fi < n
                &&& schema[fi].name == missing_upto(schema, slots, n)[k]
                &&& schema[fi].required
                &&& slots[fi] is None
            },
        forall|a: int, b: int|
            0 <= a < b < missing_upto(schema, slots, n).len() ==> (#[trigger] field_index(
                schema,
                missing_upto(schema, slots, n)[a],
            )) < (#[trigger] field_index(schema, missing_upto(schema, slots, n)[b])),
    decreases n,
{
    if n > 0 {
        lemma_missing_upto_props(schema, slots, n - 1);
        let prev = missing_upto(schema, slots, n - 1);
        let cur = missing_upto(schema, slots, n);
        if schema[n - 1].required && slots[n - 1] is None {
            assert(cur == prev + seq![schema[n - 1].name]);
            assert(cur.len() == prev.len() + 1);
            assert(forall|k: int| 0 <= k < prev.len() ==> cur[k] == prev[k]);
            assert(cur[prev.len() as int] == schema[n - 1].name);
            lemma_field_index(schema, n - 1);
            assert forall|i: int|
                0 <= i < n && (#[trigger] schema[i]).required && slots[i] is None implies cur
                .contains(schema[i].name) by {
                if i < n - 1 {
                    let k = choose|k: int| 0 <= k < prev.len() && prev[k] == schema[i].name;
                    assert(cur[k] == schema[i].name);
                } else {
                    assert(cur[prev.len() as int] == schema[i].name);
                }
            }
        } else {
            assert(cur =~= prev);
            assert forall|i: int|
                0 <= i < n && (#[trigger] schema[i]).required && slots[i] is None implies cur
                .contains(schema[i].name) by {
                assert(i < n - 1);
            }
        }
    }
}

/// Exhaustiveness of the missing-fields report: it holds the name of every
/// required field left without a value — not just the first — only such
/// names (each one names a required field whose slot is empty), each name at
/// most once, and in schema order.
pub proof fn lemma_missing_report_exhaustive(
    schema: Seq<FieldModel>,
    slots: Seq<Option<ValueModel>>,
)
    requires
        names_unique(schema),
        slots.len() == schema.len(),
    ensures
        forall|i: int|
            0 <= i < schema.len() && (#[trigger] schema[i]).required && slots[i] is None
                ==> missing_names(schema, slots).contains(schema[i].name),
        forall|k: int|
            0 <= k < missing_names(schema, slots).len() ==> {
                let fi = #[trigger] field_index(schema, missing_names(schema, slots)[k]);
                &&& 0 <= fi < schema.len()
                &&& schema[fi].name == missing_names(schema, slots)[k]
                &&& schema[fi].required
                &&& slots[fi] is None
            },
        forall|a: int, b: int|
            0 <= a < b < missing_names(schema, slots).len() ==> (#[trigger] field_index(
                schema,
                missing_names(schema, slots)[a],
            )) < (#[trigger] field_index(schema, missing_names(schema, slots)[b])),
        forall|a: int, b: int|
            0 <= a < b < missing_names(schema, slots).len() ==> (#[trigger] missing_names(
                schema,
                slots,
            )[a]) != (#[trigger] missing_names(schema, slots)[b]),
{
    lemma_missing_upto_props(schema, slots, schema.len() as int);
    let m = missing_names(schema, slots);
    assert(m == missing_upto(schema, slots, schema.len() as int));
    assert forall|a: int, b: int| 0 <= a < b < m.len() implies (#[trigger] m[a]) != (
    #[trigger] m[b]) by {
        assert(field_index(schema, m[a]) < field_index(schema, m[b]));
    }
}

/// A failed assembly over a decodable record that reports missing fields
/// reports exactly the required fields the merged draft leaves empty, and
/// reports at least one.
pub proof fn lemma_missing_fields_error(
    schema: Seq<FieldModel>,
    rec: Seq<(Seq<char>, RawModel)>,
    env: Seq<(Seq<char>, Seq<char>)>,
)
    ensures
        assembled(schema, rec, env) matches Err(e) ==> (e matches ErrorModel::MissingFields(names)
            ==> names == missing_names(schema, merged(schema, rec, env)) && names.len() > 0),
{
}

/// Precedence: when a field has a value in both the file record and the
/// environment, a successful assembly holds the environment's value.
pub proof fn lemma_env_precedence(
    schema: Seq<FieldModel>,
    rec: Seq<(Seq<char>, RawModel)>,
    env: Seq<(Seq<char>, Seq<char>)>,
    i: int,
    s: Seq<char>,
    v: ValueModel,
)
    requires
        0 <= i < schema.len(),
        rec_lookup(rec, schema[i].name) is Some,
        env_lookup(env, env_key(schema[i].name)) == Some(s),
        convert_env(s, schema[i].kind) == Some(v),
    ensures
        assembled(schema, rec, env) matches Ok(slots) ==> slots[i] == Some(v),
{
}

/// Parsing failure short-circuits: a malformed source yields a parsing
/// error and no missing-fields report, whatever the schema and environment.
pub proof fn lemma_parse_failure_short_circuits(
    schema: Seq<FieldModel>,
    source: Seq<char>,
    env: Seq<(Seq<char>, Seq<char>)>,
)
    requires
        toml_partial(source) is None,
    ensures
        load_outcome(schema, source, env) == Err::<Seq<Option<ValueModel>>, ErrorModel>(
            ErrorModel::ParsingError,
        ),
{
}

} // verus!
