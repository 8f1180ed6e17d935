use proc_config::engine::{assemble, Draft, OptionStruct, OptionStructParsing};
use proc_config::error::Error;
use proc_config::schema::{FieldSpec, SchemaDescriptor};
use proc_config::value::{Raw, TypeTag, Value};

fn schema_abc() -> SchemaDescriptor {
    let fields = vec![
        FieldSpec::new("alpha".to_string(), true, TypeTag::StringKind),
        FieldSpec::new("beta".to_string(), true, TypeTag::IntegerKind),
        FieldSpec::new("gamma".to_string(), false, TypeTag::BooleanKind),
    ];
    SchemaDescriptor::describe(fields).unwrap()
}

fn env(pairs: &[(&str, &str)]) -> Vec<(String, String)> {
    pairs.iter().map(|(k, v)| (k.to_string(), v.to_string())).collect()
}

#[test]
fn describe_rejects_duplicate_names() {
    let fields = vec![
        FieldSpec::new("twice".to_string(), true, TypeTag::StringKind),
        FieldSpec::new("twice".to_string(), false, TypeTag::IntegerKind),
    ];
    assert!(SchemaDescriptor::describe(fields).is_none());
}

#[test]
fn describe_keeps_declaration_order() {
    let schema = schema_abc();
    assert_eq!(schema.len(), 3);
    assert_eq!(schema.field(0).name, "alpha");
    assert!(schema.field(0).required);
    assert_eq!(schema.field(2).name, "gamma");
    assert!(!schema.field(2).required);
}

#[test]
fn missing_report_is_exhaustive_and_ordered() {
    let schema = schema_abc();
    let record: Vec<(String, Raw)> = vec![];
    let r = assemble(&schema, &record, &env(&[]));
    match r {
        Err(Error::MissingFields(names)) => {
            assert_eq!(names, vec!["alpha".to_string(), "beta".to_string()]);
        }
        other => panic!("expected MissingFields, got {:?}", other),
    }
}

#[test]
fn assembled_slots_hold_merged_values() {
    let schema = schema_abc();
    let record = vec![("beta".to_string(), Raw::RInt(7))];
    let overrides = env(&[("ALPHA", "up"), ("GAMMA", "true")]);
    let c = assemble(&schema, &record, &overrides).unwrap();
    assert_eq!(c.len(), 3);
    assert_eq!(c.slot(0), &Some(Value::VStr("up".to_string())));
    assert_eq!(c.slot(1), &Some(Value::VInt(7)));
    assert_eq!(c.slot(2), &Some(Value::VBool(true)));
}

#[test]
fn environment_wins_when_both_present() {
    let schema = schema_abc();
    let record = vec![
        ("alpha".to_string(), Raw::RStr("file".to_string())),
        ("beta".to_string(), Raw::RInt(1)),
    ];
    let overrides = env(&[("ALPHA", "envy"), ("BETA", "2")]);
    let c = assemble(&schema, &record, &overrides).unwrap();
    assert_eq!(c.slot(0), &Some(Value::VStr("envy".to_string())));
    assert_eq!(c.slot(1), &Some(Value::VInt(2)));
}

#[test]
fn failed_override_keeps_file_value_but_fails_run() {
    let schema = schema_abc();
    let record = vec![
        ("alpha".to_string(), Raw::RStr("file".to_string())),
        ("beta".to_string(), Raw::RInt(1)),
    ];
    let overrides = env(&[("BETA", "one")]);
    let r = assemble(&schema, &record, &overrides);
    match r {
        Err(Error::TypeError(field)) => assert_eq!(field, "beta"),
        other => panic!("expected TypeError, got {:?}", other),
    }
}

#[test]
fn unsupported_file_kind_is_parsing_error() {
    let schema = schema_abc();
    let record = vec![
        ("alpha".to_string(), Raw::ROther),
        ("beta".to_string(), Raw::RInt(1)),
    ];
    let r = assemble(&schema, &record, &env(&[]));
    assert!(matches!(r, Err(Error::ParsingError)));
}

#[test]
fn draft_set_elem_and_finalize() {
    let schema = schema_abc();
    let mut draft = Draft::new(&schema);
    assert!(draft.set_elem(&schema, "alpha", Value::VStr("a".to_string())));
    assert!(draft.set_elem(&schema, "beta", Value::VInt(3)));
    assert!(!draft.set_elem(&schema, "delta", Value::VBool(false)));
    let c = draft.finalize(&schema).unwrap();
    assert_eq!(c.slot(0), &Some(Value::VStr("a".to_string())));
    assert_eq!(c.slot(1), &Some(Value::VInt(3)));
    assert_eq!(c.slot(2), &None);
}

#[test]
fn apply_overlays_and_reports_failures() {
    let schema = schema_abc();
    let mut draft = Draft::new(&schema);
    draft.set_elem(&schema, "beta", Value::VInt(1));
    let overrides = env(&[("ALPHA", "x"), ("BETA", "bad")]);
    let terrs = draft.apply(&schema, &overrides);
    assert_eq!(terrs, vec!["beta".to_string()]);
    let c = draft.finalize(&schema).unwrap();
    assert_eq!(c.slot(0), &Some(Value::VStr("x".to_string())));
    assert_eq!(c.slot(1), &Some(Value::VInt(1)));
    assert_eq!(c.slot(2), &None);
}

#[test]
fn empty_draft_reports_every_required_field() {
    let schema = schema_abc();
    let draft = Draft::new(&schema);
    match draft.finalize(&schema) {
        Err(Error::MissingFields(names)) => {
            assert_eq!(names, vec!["alpha".to_string(), "beta".to_string()]);
        }
        other => panic!("expected MissingFields, got {:?}", other),
    }
}

#[test]
fn duplicated_values_are_equal() {
    assert_eq!(Value::VStr("s".to_string()).duplicate(), Value::VStr("s".to_string()));
    assert_eq!(Value::VInt(-3).duplicate(), Value::VInt(-3));
    assert_eq!(Value::VBool(true).duplicate(), Value::VBool(true));
}

#[test]
fn first_env_entry_wins() {
    let schema = schema_abc();
    let record = vec![("beta".to_string(), Raw::RInt(1))];
    let overrides = env(&[("ALPHA", "first"), ("ALPHA", "second")]);
    let c = assemble(&schema, &record, &overrides).unwrap();
    assert_eq!(c.slot(0), &Some(Value::VStr("first".to_string())));
}
