//! A concrete configuration type and the trait through which configuration
//! types are loaded from a source text and an environment snapshot.

use vstd::pervasive::unreached;
use vstd::prelude::*;

use crate::engine::{load_from_source, load_outcome};
use crate::error::{Error, ErrorModel};
use crate::schema::{names_unique, FieldModel, FieldSpec, SchemaDescriptor};
use crate::value::{TypeTag, Value, ValueModel};

verus! {

/// A configuration type that can be assembled from a file-backed source and
/// a snapshot of environment overrides.
pub trait EnvConfig: Sized + View {
    /// The outcome of one load, as a function of the source text and the
    /// environment snapshot alone.
    spec fn loaded(source: Seq<char>, env: Seq<(Seq<char>, Seq<char>)>) -> Result<
        Self::V,
        ErrorModel,
    >;

    /// Assembles a value of this type from TOML source text and an
    /// environment snapshot, or fails with a descriptive error.
    fn load(source: &str, env: &Vec<(String, String)>) -> (r: Result<Self, Error>)
        ensures
            (r is Ok) == (Self::loaded(source@, env.deep_view()) is Ok),
            r matches Ok(c) ==> Self::loaded(source@, env.deep_view()) == Ok::<Self::V, ErrorModel>(
                c@,
            ),
            r matches Err(e) ==> Self::loaded(source@, env.deep_view()) == Err::<
                Self::V,
                ErrorModel,
            >(e@),
    ;
}

/// Idempotence of loading: the contract of [`EnvConfig::load`] pins its
/// outcome to a function of the source text and the environment snapshot
/// alone, so with both unchanged, two successive loads have equal outcomes.
pub proof fn lemma_load_idempotent<C: EnvConfig>(
    source: Seq<char>,
    env: Seq<(Seq<char>, Seq<char>)>,
    r1: Result<C::V, ErrorModel>,
    r2: Result<C::V, ErrorModel>,
)
    requires
        r1 == C::loaded(source, env),
        r2 == C::loaded(source, env),
    ensures
        r1 == r2,
{
}

/// A service configuration: where it is reachable and under what name.
#[derive(Debug, PartialEq, Eq)]
pub struct Configuration {
    pub name: String,
    pub address: String,
    pub port: Option<i64>,
}

/// The mathematical model of a [`Configuration`].
pub struct ConfigurationModel {
    pub name: Seq<char>,
    pub address: Seq<char>,
    pub port: Option<int>,
}

impl View for Configuration {
    type V = ConfigurationModel;

    open spec fn view(&self) -> ConfigurationModel {
        ConfigurationModel {
            name: self.name@,
            address: self.address@,
            port: match self.port {
                Some(p) => Some(p as int),
                None => None,
            },
        }
    }
}

/// The schema of [`Configuration`]: `name` and `address` are required
/// strings, `port` is an optional integer.
pub open spec fn configuration_fields() -> Seq<FieldModel> {
    seq![
        FieldModel { name: "name"@, required: true, kind: TypeTag::StringKind },
        FieldModel { name: "address"@, required: true, kind: TypeTag::StringKind },
        FieldModel { name: "port"@, required: false, kind: TypeTag::IntegerKind },
    ]
}

/// Builds the schema descriptor of [`Configuration`].
pub fn configuration_descriptor() -> (s: SchemaDescriptor)
    ensures
        s@ == configuration_fields(),
        s.wf(),
{
    let mut fields: Vec<FieldSpec> = Vec::new();
    fields.push(FieldSpec::new("name".to_owned(), true, TypeTag::StringKind));
    fields.push(FieldSpec::new("address".to_owned(), true, TypeTag::StringKind));
    fields.push(FieldSpec::new("port".to_owned(), false, TypeTag::IntegerKind));
    proof {
        reveal_strlit("name");
        reveal_strlit("address");
        reveal_strlit("port");
        assert(fields.deep_view() =~= configuration_fields());
        assert("name"@ != "address"@ && "name"@ != "port"@ && "address"@ != "port"@) by {
            assert("name"@.len() == 4);
            assert("address"@.len() == 7);
            assert("name"@[0] == 'n');
            assert("port"@[0] == 'p');
        }
        assert forall|i: int, j: int|
            0 <= i < j < configuration_fields().len() implies configuration_fields()[i].name
            != configuration_fields()[j].name by {
            assert(configuration_fields()[0].name == "name"@);
            assert(configuration_fields()[1].name == "address"@);
            assert(configuration_fields()[2].name == "port"@);
        }
        assert(names_unique(configuration_fields()));
    }
    match SchemaDescriptor::describe(fields) {
        Some(s) => s,
        None => unreached(),
    }
}

/// The string a slot holds; the empty string when it holds none.
pub open spec fn slot_str(slot: Option<ValueModel>) -> Seq<char> {
    match slot {
        Some(ValueModel::Str(s)) => s,
        _ => Seq::empty(),
    }
}

/// The integer a slot holds, if any.
pub open spec fn slot_int(slot: Option<ValueModel>) -> Option<int> {
    match slot {
        Some(ValueModel::Int(i)) => Some(i),
        _ => None,
    }
}

impl EnvConfig for Configuration {
    /// The assembly outcome under the [`Configuration`] schema, read back
    /// into the model of the finished value.
    open spec fn loaded(source: Seq<char>, env: Seq<(Seq<char>, Seq<char>)>) -> Result<
        ConfigurationModel,
        ErrorModel,
    > {
        match load_outcome(configuration_fields(), source, env) {
            Err(e) => Err(e),
            Ok(slots) => Ok(
                ConfigurationModel {
                    name: slot_str(slots[0]),
                    address: slot_str(slots[1]),
                    port: slot_int(slots[2]),
                },
            ),
        }
    }

    fn load(source: &str, env: &Vec<(String, String)>) -> (r: Result<Configuration, Error>) {
        let schema = configuration_descriptor();
        match load_from_source(&schema, source, env) {
            Err(e) => Err(e),
            Ok(c) => {
                assert(c@.len() == 3);
                let name: String = match c.slot(0) {
                    Some(Value::VStr(s)) => s.clone(),
                    _ => unreached(),
                };
                let address: String = match c.slot(1) {
                    Some(Value::VStr(s)) => s.clone(),
                    _ => unreached(),
                };
                let port: Option<i64> = match c.slot(2) {
                    Some(Value::VInt(i)) => Some(*i),
                    None => None,
                    _ => unreached(),
                };
                Ok(Configuration { name, address, port })
            },
        }
    }
}

} // verus!
