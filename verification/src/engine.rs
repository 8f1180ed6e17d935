//! The assembly engine: seeds a draft record from the decoded file, overlays
//! environment overrides, validates the draft exhaustively against the
//! schema, and finalizes it all-or-nothing into a configuration value.

use vstd::prelude::*;

use crate::error::{Error, ErrorModel};
use crate::schema::{field_index, field_index_from, FieldModel, SchemaDescriptor};
use crate::source::{parse_toml, toml_partial};
use crate::text::{convert_env, convert_env_value, env_key, key_matches, str_eq};
use crate::value::{kind_of, raw_as_value, raw_to_value, Raw, RawModel, Value, ValueModel};

verus! {

/// The value of the first record entry named `name` at or after `i`.
pub open spec fn rec_lookup_from(
    rec: Seq<(Seq<char>, RawModel)>,
    name: Seq<char>,
    i: int,
) -> Option<RawModel>
    decreases rec.len() - i,
{
    if i < 0 || i >= rec.len() {
        None
    } else if rec[i].0 == name {
        Some(rec[i].1)
    } else {
        rec_lookup_from(rec, name, i + 1)
    }
}

/// The value of the first record entry named `name`, if any.
pub open spec fn rec_lookup(rec: Seq<(Seq<char>, RawModel)>, name: Seq<char>) -> Option<RawModel> {
    rec_lookup_from(rec, name, 0)
}

/// The value of the first environment entry under `key` at or after `i`.
pub open spec fn env_lookup_from(
    env: Seq<(Seq<char>, Seq<char>)>,
    key: Seq<char>,
    i: int,
) -> Option<Seq<char>>
    decreases env.len() - i,
{
    if i < 0 || i >= env.len() {
        None
    } else if env[i].0 == key {
        Some(env[i].1)
    } else {
        env_lookup_from(env, key, i + 1)
    }
}

/// The value of the first environment entry under `key`, if any.
pub open spec fn env_lookup(env: Seq<(Seq<char>, Seq<char>)>, key: Seq<char>) -> Option<Seq<char>> {
    env_lookup_from(env, key, 0)
}

/// What seeding puts in the draft slot of field `f`: the file value when the
/// record has one of the declared kind, an empty slot when the record has
/// none. `None` when the record's value is of the wrong kind, which makes
/// the whole record undecodable for this schema.
pub open spec fn seed_slot(rec: Seq<(Seq<char>, RawModel)>, f: FieldModel) -> Option<
    Option<ValueModel>,
> {
    match rec_lookup(rec, f.name) {
        None => Some(None),
        Some(raw) => match raw_to_value(raw, f.kind) {
            Some(v) => Some(Some(v)),
            None => None,
        },
    }
}

/// Every field of the schema can be seeded from the record.
pub open spec fn seed_ok(schema: Seq<FieldModel>, rec: Seq<(Seq<char>, RawModel)>) -> bool {
    forall|i: int| 0 <= i < schema.len() ==> seed_slot(rec, #[trigger] schema[i]) is Some
}

/// What the overlay leaves in the slot of field `f`: a convertible
/// environment value overwrites whatever the slot holds; an inconvertible
/// one, or no environment entry at all, leaves the slot as it is.
pub open spec fn overlay_slot(
    env: Seq<(Seq<char>, Seq<char>)>,
    f: FieldModel,
    slot: Option<ValueModel>,
) -> Option<ValueModel> {
    match env_lookup(env, env_key(f.name)) {
        None => slot,
        Some(s) => match convert_env(s, f.kind) {
            Some(v) => Some(v),
            None => slot,
        },
    }
}

/// The overlay fails on field `f`: the environment has an entry for it that
/// does not convert to the field's kind.
pub open spec fn overlay_err(env: Seq<(Seq<char>, Seq<char>)>, f: FieldModel) -> bool {
    match env_lookup(env, env_key(f.name)) {
        None => false,
        Some(s) => convert_env(s, f.kind) is None,
    }
}

/// The slot of field `f` after seeding alone: the file value when the
/// record has one, an empty slot otherwise or when the kind is wrong.
pub open spec fn seeded_slot(rec: Seq<(Seq<char>, RawModel)>, f: FieldModel) -> Option<ValueModel> {
    match seed_slot(rec, f) {
        Some(slot) => slot,
        None => None,
    }
}

/// The whole draft after seeding alone, in schema order.
pub open spec fn seeded(schema: Seq<FieldModel>, rec: Seq<(Seq<char>, RawModel)>) -> Seq<
    Option<ValueModel>,
> {
    Seq::new(schema.len(), |i: int| seeded_slot(rec, schema[i]))
}

/// The whole draft after the overlay, in schema order.
pub open spec fn overlaid(
    schema: Seq<FieldModel>,
    slots: Seq<Option<ValueModel>>,
    env: Seq<(Seq<char>, Seq<char>)>,
) -> Seq<Option<ValueModel>> {
    Seq::new(schema.len(), |i: int| overlay_slot(env, schema[i], slots[i]))
}

/// The slot of field `f` after seeding and overlay.
pub open spec fn merged_slot(
    rec: Seq<(Seq<char>, RawModel)>,
    env: Seq<(Seq<char>, Seq<char>)>,
    f: FieldModel,
) -> Option<ValueModel> {
    overlay_slot(env, f, seeded_slot(rec, f))
}

/// The whole draft after seeding and overlay, in schema order.
pub open spec fn merged(
    schema: Seq<FieldModel>,
    rec: Seq<(Seq<char>, RawModel)>,
    env: Seq<(Seq<char>, Seq<char>)>,
) -> Seq<Option<ValueModel>> {
    Seq::new(schema.len(), |i: int| merged_slot(rec, env, schema[i]))
}

/// The names of the fields among the first `n` whose environment override
/// failed to convert, in schema order.
pub open spec fn type_errors_upto(
    schema: Seq<FieldModel>,
    env: Seq<(Seq<char>, Seq<char>)>,
    n: int,
) -> Seq<Seq<char>>
    decreases n,
{
    if n <= 0 {
        Seq::empty()
    } else {
        type_errors_upto(schema, env, n - 1) + if overlay_err(env, schema[n - 1]) {
            seq![schema[n - 1].name]
        } else {
            Seq::empty()
        }
    }
}

/// The names of all fields whose environment override failed to convert.
pub open spec fn type_error_fields(
    schema: Seq<FieldModel>,
    env: Seq<(Seq<char>, Seq<char>)>,
) -> Seq<Seq<char>> {
    type_errors_upto(schema, env, schema.len() as int)
}

/// The names of the required fields among the first `n` whose slot is still
/// empty, in schema order.
pub open spec fn missing_upto(
    schema: Seq<FieldModel>,
    slots: Seq<Option<ValueModel>>,
    n: int,
) -> Seq<Seq<char>>
    decreases n,
{
    if n <= 0 {
        Seq::empty()
    } else {
        missing_upto(schema, slots, n - 1) + if schema[n - 1].required && slots[n - 1] is None {
            seq![schema[n - 1].name]
        } else {
            Seq::empty()
        }
    }
}

/// The missing-fields report: every required field left without a value, in
/// schema order.
pub open spec fn missing_names(
    schema: Seq<FieldModel>,
    slots: Seq<Option<ValueModel>>,
) -> Seq<Seq<char>> {
    missing_upto(schema, slots, schema.len() as int)
}

/// A well-formed configuration for `schema`: one slot per field, every
/// required field with a value, every value of its field's declared kind.
pub open spec fn config_wf(schema: Seq<FieldModel>, slots: Seq<Option<ValueModel>>) -> bool {
    &&& slots.len() == schema.len()
    &&& forall|i: int|
        0 <= i < schema.len() ==> (schema[i].required ==> #[trigger] slots[i] is Some)
    &&& forall|i: int|
        0 <= i < schema.len() ==> (#[trigger] slots[i] matches Some(v) ==> kind_of(v)
            == schema[i].kind)
}

/// The outcome of one assembly run over an already decoded record: a
/// parsing failure when some file value has the wrong kind; otherwise the
/// exhaustive missing-fields report when any required field is left empty;
/// otherwise the first field whose override failed to convert; otherwise the
/// merged slots.
pub open spec fn assembled(
    schema: Seq<FieldModel>,
    rec: Seq<(Seq<char>, RawModel)>,
    env: Seq<(Seq<char>, Seq<char>)>,
) -> Result<Seq<Option<ValueModel>>, ErrorModel> {
    if !seed_ok(schema, rec) {
        Err(ErrorModel::ParsingError)
    } else {
        let slots = merged(schema, rec, env);
        let miss = missing_names(schema, slots);
        let terrs = type_error_fields(schema, env);
        if miss.len() > 0 {
            Err(ErrorModel::MissingFields(miss))
        } else if terrs.len() > 0 {
            Err(ErrorModel::TypeError(terrs[0]))
        } else {
            Ok(slots)
        }
    }
}

/// The outcome of one assembly run over raw source text: a parsing failure
/// when the text is malformed, the outcome of [`assembled`] otherwise.
pub open spec fn load_outcome(
    schema: Seq<FieldModel>,
    source: Seq<char>,
    env: Seq<(Seq<char>, Seq<char>)>,
) -> Result<Seq<Option<ValueModel>>, ErrorModel> {
    match toml_partial(source) {
        None => Err(ErrorModel::ParsingError),
        Some(rec) => assembled(schema, rec, env),
    }
}

/// The finalized, immutable configuration: every required field holds a
/// value, every optional field holds a value or is explicitly absent.
/// Created only by successful finalization, all-or-nothing.
#[derive(Debug)]
pub struct ConfigValue {
    slots: Vec<Option<Value>>,
}

impl View for ConfigValue {
    type V = Seq<Option<ValueModel>>;

    closed spec fn view(&self) -> Seq<Option<ValueModel>> {
        self.slots.deep_view()
    }
}

impl ConfigValue {
    /// The number of slots, one per schema field.
    pub fn len(&self) -> (n: usize)
        ensures
            n == self@.len(),
    {
        self.slots.len()
    }

    /// The slot of the field at schema position `i`.
    pub fn slot(&self, i: usize) -> (r: &Option<Value>)
        requires
            i < self@.len(),
        ensures
            r.deep_view() == self@[i as int],
    {
        &self.slots[i]
    }
}

/// The draft record of one assembly run: one optional slot per schema
/// field, filled by the merge and consumed by finalization.
pub struct Draft {
    slots: Vec<Option<Value>>,
}

impl View for Draft {
    type V = Seq<Option<ValueModel>>;

    closed spec fn view(&self) -> Seq<Option<ValueModel>> {
        self.slots.deep_view()
    }
}

/// The draft-record interface: a record whose every slot is optionally
/// present, populated one named slot at a time and finalized all-or-nothing
/// against a schema.
pub trait OptionStruct: Sized + View<V = Seq<Option<ValueModel>>> {
    /// Sets the slot of the field named `name`, when the schema declares
    /// one; reports whether it does. All other slots are left as they are.
    fn set_elem(&mut self, schema: &SchemaDescriptor, name: &str, value: Value) -> (found: bool)
        requires
            old(self)@.len() == schema@.len(),
        ensures
            final(self)@.len() == old(self)@.len(),
            found == (field_index(schema@, name@) < schema@.len()),
            forall|j: int|
                0 <= j < old(self)@.len() && j != field_index(schema@, name@) ==> final(self)@[j]
                    == old(self)@[j],
            found ==> final(self)@[field_index(schema@, name@)] == Some(value@),
    ;

    /// Validates the draft exhaustively and finalizes it: scans every
    /// schema field, collects the name of every required field whose slot is
    /// still empty, and only when that report is empty constructs the
    /// configuration value, all-or-nothing.
    fn finalize(self, schema: &SchemaDescriptor) -> (r: Result<ConfigValue, Error>)
        requires
            self@.len() == schema@.len(),
        ensures
            (r is Ok) == (missing_names(schema@, self@).len() == 0),
            r matches Ok(c) ==> c@ == self@,
            r matches Err(e) ==> e@ == ErrorModel::MissingFields(missing_names(schema@, self@)),
    ;
}

/// The overlay interface of a draft record: applying the parsed environment
/// overrides to it, one field at a time, without stopping at a failure.
pub trait OptionStructParsing: Sized + View<V = Seq<Option<ValueModel>>> {
    /// Overlays the environment snapshot on the draft: every override that
    /// converts to its field's kind overwrites the field's slot; one that
    /// does not leaves the slot as it is and is reported by name, so every
    /// other field is still processed. Returns the names of the fields
    /// whose override failed, in schema order.
    fn apply(&mut self, schema: &SchemaDescriptor, env: &Vec<(String, String)>) -> (terrs: Vec<
        String,
    >)
        requires
            old(self)@.len() == schema@.len(),
        ensures
            final(self)@ == overlaid(schema@, old(self)@, env.deep_view()),
            terrs.deep_view() == type_error_fields(schema@, env.deep_view()),
    ;
}

/// The first record entry named `name`, if any.
fn rec_find<'a>(record: &'a Vec<(String, Raw)>, name: &String) -> (o: Option<&'a Raw>)
    ensures
        match o {
            Some(raw) => rec_lookup(record.deep_view(), name@) == Some(raw@),
            None => rec_lookup(record.deep_view(), name@) is None,
        },
{
    let n = record.len();
    for i in 0..n
        invariant
            n == record.len(),
            rec_lookup(record.deep_view(), name@) == rec_lookup_from(
                record.deep_view(),
                name@,
                i as int,
            ),
    {
        if record[i].0 == *name {
            return Some(&record[i].1);
        }
    }
    None
}

/// The first environment entry whose key is the environment key of the
/// field named `name`, if any.
fn env_find<'a>(env: &'a Vec<(String, String)>, name: &String) -> (o: Option<&'a String>)
    ensures
        match o {
            Some(s) => env_lookup(env.deep_view(), env_key(name@)) == Some(s@),
            None => env_lookup(env.deep_view(), env_key(name@)) is None,
        },
{
    let n = env.len();
    for i in 0..n
        invariant
            n == env.len(),
            env_lookup(env.deep_view(), env_key(name@)) == env_lookup_from(
                env.deep_view(),
                env_key(name@),
                i as int,
            ),
    {
        if key_matches(env[i].0.as_str(), name.as_str()) {
            return Some(&env[i].1);
        }
    }
    None
}

impl Draft {
    /// A draft for `schema` with every slot absent.
    pub fn new(schema: &SchemaDescriptor) -> (d: Draft)
        ensures
            d@ == Seq::new(schema@.len(), (|i: int| None::<ValueModel>)),
    {
        let n = schema.len();
        let mut slots: Vec<Option<Value>> = Vec::new();
        for i in 0..n
            invariant
                n == schema@.len(),
                slots.deep_view().len() == i,
                forall|j: int| 0 <= j < i ==> (#[trigger] slots.deep_view()[j]) is None,
        {
            let ghost prev = slots.deep_view();
            slots.push(None);
            proof {
                assert(slots.deep_view() =~= prev.push(None::<ValueModel>));
            }
        }
        proof {
            assert(slots.deep_view() =~= Seq::new(
                schema@.len(),
                (|i: int| None::<ValueModel>),
            ));
        }
        Draft { slots }
    }

    /// Seeds a draft from the decoded record and overlays the environment
    /// snapshot, field by field in schema order. Returns the draft together
    /// with the names of the fields whose override failed to convert, or a
    /// parsing failure when some file value has the wrong kind.
    pub fn merge(
        schema: &SchemaDescriptor,
        record: &Vec<(String, Raw)>,
        env: &Vec<(String, String)>,
    ) -> (r: Result<(Draft, Vec<String>), Error>)
        ensures
            (r is Ok) == seed_ok(schema@, record.deep_view()),
            r matches Ok(p) ==> p.0@ == merged(schema@, record.deep_view(), env.deep_view())
                && p.1.deep_view() == type_error_fields(schema@, env.deep_view()),
            r matches Err(e) ==> e@ == ErrorModel::ParsingError,
    {
        let n = schema.len();
        let mut slots: Vec<Option<Value>> = Vec::new();
        for i in 0..n
            invariant
                n == schema@.len(),
                slots.deep_view().len() == i,
                forall|j: int|
                    0 <= j < i ==> slots.deep_view()[j] == seeded_slot(
                        record.deep_view(),
                        #[trigger] schema@[j],
                    ),
                forall|j: int| 0 <= j < i ==> seed_slot(record.deep_view(), #[trigger] schema@[j]) is Some,
        {
            let ghost prev_slots = slots.deep_view();
            let f = schema.field(i);
            let base: Option<Value> = match rec_find(record, &f.name) {
                Some(raw) => match raw_as_value(raw, f.kind) {
                    Some(v) => Some(v),
                    None => {
                        assert(seed_slot(record.deep_view(), schema@[i as int]) is None);
                        return Err(Error::ParsingError);
                    },
                },
                None => None,
            };
            assert(Some(base.deep_view()) == seed_slot(record.deep_view(), schema@[i as int]));
            slots.push(base);
            proof {
                assert(slots.deep_view() =~= prev_slots.push(base.deep_view()));
            }
        }
        let mut draft = Draft { slots };
        proof {
            assert(draft@ =~= seeded(schema@, record.deep_view()));
        }
        let terrs = draft.apply(schema, env);
        proof {
            assert(draft@ =~= merged(schema@, record.deep_view(), env.deep_view()));
        }
        Ok((draft, terrs))
    }
}

impl OptionStructParsing for Draft {
    fn apply(&mut self, schema: &SchemaDescriptor, env: &Vec<(String, String)>) -> (terrs: Vec<
        String,
    >) {
        let n = schema.len();
        let mut terrs: Vec<String> = Vec::new();
        for i in 0..n
            invariant
                n == schema@.len(),
                self@.len() == schema@.len(),
                forall|j: int|
                    0 <= j < i ==> self@[j] == overlay_slot(
                        env.deep_view(),
                        #[trigger] schema@[j],
                        old(self)@[j],
                    ),
                forall|j: int| i <= j < n ==> self@[j] == old(self)@[j],
                terrs.deep_view() == type_errors_upto(schema@, env.deep_view(), i as int),
        {
            let ghost prev_terrs = terrs.deep_view();
            let ghost before = self@;
            let f = schema.field(i);
            match env_find(env, &f.name) {
                Some(s) => match convert_env_value(s, f.kind) {
                    Some(v) => {
                        self.slots[i] = Some(v);
                        proof {
                            assert forall|k: int| 0 <= k < before.len() && k != i implies self@[k]
                                == before[k] by {}
                            assert(self@[i as int] == Some(v@));
                        }
                    },
                    None => {
                        terrs.push(f.name.clone());
                        proof {
                            assert(overlay_err(env.deep_view(), schema@[i as int]));
                            assert(terrs.deep_view() =~= prev_terrs.push(f.name@));
                        }
                    },
                },
                None => {},
            }
            proof {
                if !overlay_err(env.deep_view(), schema@[i as int]) {
                    assert(type_errors_upto(schema@, env.deep_view(), i + 1) =~= type_errors_upto(
                        schema@,
                        env.deep_view(),
                        i as int,
                    ));
                } else {
                    assert(terrs.deep_view() =~= type_errors_upto(schema@, env.deep_view(), i + 1));
                }
                assert(self@[i as int] == overlay_slot(
                    env.deep_view(),
                    schema@[i as int],
                    before[i as int],
                ));
            }
        }
        proof {
            assert(self@ =~= overlaid(schema@, old(self)@, env.deep_view()));
        }
        terrs
    }
}

impl OptionStruct for Draft {
    fn set_elem(&mut self, schema: &SchemaDescriptor, name: &str, value: Value) -> (found: bool) {
        let n = schema.len();
        for j in 0..n
            invariant
                n == schema@.len(),
                self@ == old(self)@,
                self@.len() == schema@.len(),
                field_index(schema@, name@) == field_index_from(schema@, name@, j as int),
        {
            let f = schema.field(j);
            if str_eq(name, f.name.as_str()) {
                proof {
                    assert(field_index(schema@, name@) == j);
                }
                let ghost before = self@;
                self.slots[j] = Some(value);
                proof {
                    assert forall|k: int| 0 <= k < before.len() && k != j implies self@[k]
                        == before[k] by {}
                    assert(self@[j as int] == Some(value@));
                    assert(self@.len() == before.len());
                }
                return true;
            }
        }
        false
    }

    fn finalize(self, schema: &SchemaDescriptor) -> (r: Result<ConfigValue, Error>) {
        let n = schema.len();
        let mut missing: Vec<String> = Vec::new();
        for i in 0..n
            invariant
                n == schema@.len(),
                self@.len() == schema@.len(),
                missing.deep_view() == missing_upto(schema@, self@, i as int),
        {
            let ghost prev = missing.deep_view();
            let f = schema.field(i);
            let absent = self.slots[i].is_none();
            assert(absent == (self@[i as int] is None));
            if f.required && absent {
                missing.push(f.name.clone());
                proof {
                    assert(missing.deep_view() =~= prev.push(f.name@));
                    assert(missing.deep_view() =~= missing_upto(schema@, self@, i + 1));
                }
            } else {
                proof {
                    assert(missing_upto(schema@, self@, i + 1) =~= missing_upto(
                        schema@,
                        self@,
                        i as int,
                    ));
                }
            }
        }
        if missing.len() == 0 {
            assert(missing_names(schema@, self@).len() == 0);
            Ok(ConfigValue { slots: self.slots })
        } else {
            assert(missing.deep_view().len() > 0);
            Err(Error::MissingFields(missing))
        }
    }
}

/// Every value a merged slot can hold is of its field's declared kind.
proof fn lemma_merged_kinds(
    schema: Seq<FieldModel>,
    rec: Seq<(Seq<char>, RawModel)>,
    env: Seq<(Seq<char>, Seq<char>)>,
)
    ensures
        forall|i: int|
            0 <= i < schema.len() ==> (#[trigger] merged(schema, rec, env)[i] matches Some(v)
                ==> kind_of(v) == schema[i].kind),
{
    assert forall|i: int|
        0 <= i < schema.len() && #[trigger] merged(schema, rec, env)[i] is Some implies kind_of(
        merged(schema, rec, env)[i]->Some_0,
    ) == schema[i].kind by {
        let f = schema[i];
        let slot = merged(schema, rec, env)[i];
        match env_lookup(env, env_key(f.name)) {
            Some(s) => {
                match convert_env(s, f.kind) {
                    Some(_) => {},
                    None => lemma_seeded_kind(rec, f),
                }
            },
            None => lemma_seeded_kind(rec, f),
        }
    }
}

/// Every value a seeded slot can hold is of its field's declared kind.
proof fn lemma_seeded_kind(rec: Seq<(Seq<char>, RawModel)>, f: FieldModel)
    ensures
        match seed_slot(rec, f) {
            Some(slot) => slot matches Some(v) ==> kind_of(v) == f.kind,
            None => true,
        },
{
}

/// If the missing-fields scan of the first `n` fields reports nothing, each
/// required field among them holds a value.
proof fn lemma_missing_empty(schema: Seq<FieldModel>, slots: Seq<Option<ValueModel>>, n: int)
    requires
        n <= schema.len(),
        missing_upto(schema, slots, n).len() == 0,
    ensures
        forall|j: int| 0 <= j < n && schema[j].required ==> #[trigger] slots[j] is Some,
    decreases n,
{
    if n > 0 {
        lemma_missing_empty(schema, slots, n - 1);
    }
}

/// A successful assembly yields a well-formed configuration: every required
/// field declared in the schema holds a value, of its declared kind.
pub proof fn lemma_success_covers_required(
    schema: Seq<FieldModel>,
    rec: Seq<(Seq<char>, RawModel)>,
    env: Seq<(Seq<char>, Seq<char>)>,
)
    ensures
        assembled(schema, rec, env) matches Ok(slots) ==> config_wf(schema, slots),
{
    if assembled(schema, rec, env) is Ok {
        let slots = merged(schema, rec, env);
        lemma_missing_empty(schema, slots, schema.len() as int);
        lemma_merged_kinds(schema, rec, env);
    }
}

/// Merges the decoded record with the environment snapshot and finalizes
/// the draft: the single assembly operation over an already decoded record.
pub fn assemble(
    schema: &SchemaDescriptor,
    record: &Vec<(String, Raw)>,
    env: &Vec<(String, String)>,
) -> (r: Result<ConfigValue, Error>)
    ensures
        (r is Ok) == (assembled(schema@, record.deep_view(), env.deep_view()) is Ok),
        r matches Ok(c) ==> assembled(schema@, record.deep_view(), env.deep_view()) == Ok::<
            Seq<Option<ValueModel>>,
            ErrorModel,
        >(c@) && config_wf(schema@, c@),
        r matches Err(e) ==> assembled(schema@, record.deep_view(), env.deep_view()) == Err::<
            Seq<Option<ValueModel>>,
            ErrorModel,
        >(e@),
{
    let (draft, terrs) = match Draft::merge(schema, record, env) {
        Ok(p) => p,
        Err(e) => {
            return Err(e);
        },
    };
    match draft.finalize(schema) {
        Ok(c) => {
            if terrs.len() > 0 {
                Err(Error::TypeError(terrs[0].clone()))
            } else {
                proof {
                    lemma_success_covers_required(schema@, record.deep_view(), env.deep_view());
                }
                Ok(c)
            }
        },
        Err(e) => Err(e),
    }
}

/// The single entry point over raw source text: decodes the text through
/// the deserialization collaborator, then assembles. A malformed source is
/// a parsing failure at once; no missing-fields report is produced for it.
pub fn load_from_source(
    schema: &SchemaDescriptor,
    source: &str,
    env: &Vec<(String, String)>,
) -> (r: Result<ConfigValue, Error>)
    ensures
        (r is Ok) == (load_outcome(schema@, source@, env.deep_view()) is Ok),
        r matches Ok(c) ==> load_outcome(schema@, source@, env.deep_view()) == Ok::<
            Seq<Option<ValueModel>>,
            ErrorModel,
        >(c@) && config_wf(schema@, c@),
        r matches Err(e) ==> load_outcome(schema@, source@, env.deep_view()) == Err::<
            Seq<Option<ValueModel>>,
            ErrorModel,
        >(e@),
{
    match parse_toml(source) {
        None => Err(Error::ParsingError),
        Some(record) => assemble(schema, &record, env),
    }
}

} // verus!
