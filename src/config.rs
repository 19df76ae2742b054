use vstd::prelude::*;
use vstd::string::StringExecFns;
use vstd::string::StrSliceExecFns;
use crate::error::{DataFakeError, ErrorKind};
use crate::expr::Ctx;
use crate::types::{DataFakeConfig, GenerationContext, Metadata, bindings};
use crate::value::{Json, Value, chars_of, chars_eq, clone_entries, key_views, lemma_array_view, lemma_object_view, value_views, views};

verus! {

/// Parses documents into configurations and validates them.
pub struct ConfigParser;

/// Why a document is refused: an error of a kind, or a numeric range whose
/// minimum exceeds its maximum.
pub enum Fault {
    Kind(ErrorKind),
    Range(int, int),
}

/// An error is the one that a fault describes.
pub open spec fn error_is(e: DataFakeError, f: Fault) -> bool {
    match f {
        Fault::Kind(k) => e.spec_kind() == k && k != ErrorKind::InvalidRange,
        Fault::Range(lo, hi) => match e {
            DataFakeError::InvalidRange { min, max } => min == lo && max == hi,
            _ => false,
        },
    }
}

/// The value under a key of an object, from index `i` on; the first
/// occurrence wins.
pub open spec fn field_from(ks: Seq<Seq<char>>, vs: Seq<Json>, key: Seq<char>, i: int) -> Option<Json>
    decreases ks.len() - i,
{
    if i < 0 || i >= ks.len() || i >= vs.len() {
        None
    } else if ks[i] == key {
        Some(vs[i])
    } else {
        field_from(ks, vs, key, i + 1)
    }
}

/// The value under a key of an object.
pub open spec fn field(ks: Seq<Seq<char>>, vs: Seq<Json>, key: Seq<char>) -> Option<Json> {
    field_from(ks, vs, key, 0)
}

/// The method names of the numeric kinds, whose bounds are checked.
pub open spec fn is_numeric_method(m: Seq<char>) -> bool {
    m == "u8"@ || m == "u16"@ || m == "u32"@ || m == "u64"@ || m == "i8"@ || m == "i16"@
        || m == "i32"@ || m == "i64"@ || m == "f32"@ || m == "f64"@
}

/// A range bound: an integer. A non-integral number cannot be compared by
/// this library and is refused like a non-number.
pub open spec fn bound_of(x: Json) -> Result<int, ErrorKind> {
    match x {
        Json::Int(n) => Ok(n),
        _ => Err(ErrorKind::TypeConversion),
    }
}

/// Validation of a generation operator's argument list.
pub open spec fn check_fake_args(args: Json) -> Option<Fault> {
    match args {
        Json::Array(a) => if a.len() == 0 {
            Some(Fault::Kind(ErrorKind::InvalidConfig))
        } else {
            match a[0] {
                Json::Str(m) => if m.len() == 0 {
                    Some(Fault::Kind(ErrorKind::InvalidConfig))
                } else if is_numeric_method(m) {
                    if a.len() == 3 {
                        match bound_of(a[1]) {
                            Err(k) => Some(Fault::Kind(k)),
                            Ok(lo) => match bound_of(a[2]) {
                                Err(k) => Some(Fault::Kind(k)),
                                Ok(hi) => if lo > hi { Some(Fault::Range(lo, hi)) } else { None },
                            },
                        }
                    } else if a.len() != 1 {
                        Some(Fault::Kind(ErrorKind::InvalidConfig))
                    } else {
                        None
                    }
                } else {
                    None
                },
                _ => Some(Fault::Kind(ErrorKind::InvalidConfig)),
            }
        },
        _ => Some(Fault::Kind(ErrorKind::InvalidConfig)),
    }
}

/// Validation of an object that holds `fake` or `var`: the generation
/// operator's arguments, or a variable reference that is not empty.
pub open spec fn check_expression(v: Json) -> Option<Fault> {
    match v {
        Json::Object(ks, vs) => match field(ks, vs, "fake"@) {
            Some(args) => check_fake_args(args),
            None => match field(ks, vs, "var"@) {
                Some(Json::Str(s)) => if s.len() == 0 {
                    Some(Fault::Kind(ErrorKind::InvalidConfig))
                } else {
                    None
                },
                _ => None,
            },
        },
        _ => None,
    }
}

/// Validation of a node, depth first and left to right, up to the first
/// violation: no `null`, no empty key, well-formed expressions. An object
/// that holds `fake` or `var` is checked as an expression first; then, like
/// every object, its keys and values are visited, so expressions among its
/// operands are validated too.
pub open spec fn check_node(v: Json) -> Option<Fault>
    decreases v, 0int,
{
    match v {
        Json::Object(ks, vs) => match (if field(ks, vs, "fake"@) is Some || field(ks, vs, "var"@) is Some {
            check_expression(v)
        } else {
            None
        }) {
            Some(f) => Some(f),
            None => check_entries(ks, vs, 0),
        },
        Json::Array(a) => check_items(a, 0),
        Json::Null => Some(Fault::Kind(ErrorKind::InvalidConfig)),
        _ => None,
    }
}

/// Validation of an object's entries from index `i` on.
pub open spec fn check_entries(ks: Seq<Seq<char>>, vs: Seq<Json>, i: int) -> Option<Fault>
    decreases vs, vs.len() - i,
{
    if i < 0 || i >= vs.len() || i >= ks.len() {
        None
    } else if ks[i].len() == 0 {
        Some(Fault::Kind(ErrorKind::InvalidConfig))
    } else {
        match check_node(vs[i]) {
            Some(f) => Some(f),
            None => check_entries(ks, vs, i + 1),
        }
    }
}

/// Validation of an array's items from index `i` on.
pub open spec fn check_items(a: Seq<Json>, i: int) -> Option<Fault>
    decreases a, a.len() - i,
{
    if i < 0 || i >= a.len() {
        None
    } else {
        match check_node(a[i]) {
            Some(f) => Some(f),
            None => check_items(a, i + 1),
        }
    }
}

/// Validation of the variables from index `i` on: a non-empty name, a
/// non-null value, and a valid node.
pub open spec fn check_variables(vars: Ctx, i: int) -> Option<Fault>
    decreases vars.len() - i,
{
    if i < 0 || i >= vars.len() {
        None
    } else if vars[i].0.len() == 0 {
        Some(Fault::Kind(ErrorKind::InvalidConfig))
    } else if vars[i].1 is Null {
        Some(Fault::Kind(ErrorKind::InvalidConfig))
    } else {
        match check_node(vars[i].1) {
            Some(f) => Some(f),
            None => check_variables(vars, i + 1),
        }
    }
}

/// Validation of a configuration: a schema that is not null, then its
/// variables, then its schema.
pub open spec fn check_config(vars: Ctx, schema: Json) -> Option<Fault> {
    if schema is Null {
        Some(Fault::Kind(ErrorKind::InvalidConfig))
    } else {
        match check_variables(vars, 0) {
            Some(f) => Some(f),
            None => check_node(schema),
        }
    }
}

/// The entries of an object as bindings.
pub open spec fn entries(ks: Seq<Seq<char>>, vs: Seq<Json>) -> Ctx {
    Seq::new(vs.len(), |i: int| (ks[i], vs[i]))
}

/// A metadata object whose descriptive fields are texts or `null`.
pub open spec fn metadata_ok(m: Json) -> bool {
    match m {
        Json::Null => true,
        Json::Object(ks, vs) => {
            &&& (field(ks, vs, "name"@) matches Some(x) ==> (x is Str || x is Null))
            &&& (field(ks, vs, "version"@) matches Some(x) ==> (x is Str || x is Null))
            &&& (field(ks, vs, "description"@) matches Some(x) ==> (x is Str || x is Null))
        },
        _ => false,
    }
}

/// The text under a key of an object, if it is a text.
pub open spec fn text_field(ks: Seq<Seq<char>>, vs: Seq<Json>, key: Seq<char>) -> Option<Seq<char>> {
    match field(ks, vs, key) {
        Some(Json::Str(s)) => Some(s),
        _ => None,
    }
}

/// The keys of the descriptive metadata fields.
pub open spec fn is_descriptive(k: Seq<char>) -> bool {
    k == "name"@ || k == "version"@ || k == "description"@
}

/// The entries among the first `i` of a metadata object that are not
/// descriptive fields, in order.
pub open spec fn extra_from(ks: Seq<Seq<char>>, vs: Seq<Json>, i: int) -> Ctx
    decreases i,
{
    if i <= 0 || i > vs.len() || i > ks.len() {
        Seq::empty()
    } else if is_descriptive(ks[i - 1]) {
        extra_from(ks, vs, i - 1)
    } else {
        extra_from(ks, vs, i - 1).push((ks[i - 1], vs[i - 1]))
    }
}

/// The model of metadata: name, version, description, and the other entries.
pub type MetadataModel = (Option<Seq<char>>, Option<Seq<char>>, Option<Seq<char>>, Ctx);

/// The metadata that a document holds: none when the field is absent or
/// `null`.
pub open spec fn doc_metadata(doc: Json) -> Option<MetadataModel> {
    match doc {
        Json::Object(ks, vs) => match field(ks, vs, "metadata"@) {
            Some(Json::Object(mk, mv)) => Some(
                (
                    text_field(mk, mv, "name"@),
                    text_field(mk, mv, "version"@),
                    text_field(mk, mv, "description"@),
                    extra_from(mk, mv, mv.len() as int),
                ),
            ),
            _ => None,
        },
        _ => None,
    }
}

pub open spec fn text_view(t: Option<String>) -> Option<Seq<char>> {
    match t {
        Some(s) => Some(s@),
        None => None,
    }
}

/// The model of parsed metadata.
pub open spec fn metadata_view(m: Option<Metadata>) -> Option<MetadataModel> {
    match m {
        Some(md) => Some((text_view(md.name), text_view(md.version), text_view(md.description), bindings(md.extra@))),
        None => None,
    }
}

/// The structure of a configuration document: an object with a `schema`,
/// `variables` that is an object when present (empty when absent), and
/// well-formed `metadata` when present.
pub open spec fn read_doc(doc: Json) -> Result<(Ctx, Json), Fault> {
    match doc {
        Json::Object(ks, vs) => match field(ks, vs, "schema"@) {
            None => Err(Fault::Kind(ErrorKind::ConfigParse)),
            Some(schema) => {
                let vars = match field(ks, vs, "variables"@) {
                    None => Some(Seq::<(Seq<char>, Json)>::empty()),
                    Some(Json::Object(vk, vv)) => Some(entries(vk, vv)),
                    Some(_) => None,
                };
                let meta = match field(ks, vs, "metadata"@) {
                    None => true,
                    Some(m) => metadata_ok(m),
                };
                match vars {
                    None => Err(Fault::Kind(ErrorKind::ConfigParse)),
                    Some(vars) => if !meta {
                        Err(Fault::Kind(ErrorKind::ConfigParse))
                    } else {
                        Ok((vars, schema))
                    },
                }
            },
        },
        _ => Err(Fault::Kind(ErrorKind::ConfigParse)),
    }
}

/// Parsing and validation of a document: its structure, then validation.
pub open spec fn parse_doc(doc: Json) -> Result<(Ctx, Json), Fault> {
    match read_doc(doc) {
        Err(f) => Err(f),
        Ok((vars, schema)) => match check_config(vars, schema) {
            Some(f) => Err(f),
            None => Ok((vars, schema)),
        },
    }
}

/// The model of a configuration: its variables and its schema.
pub open spec fn config_model(c: DataFakeConfig) -> (Ctx, Json) {
    (bindings(c.variables@), c.schema@)
}

fn invalid(msg: &str) -> (e: DataFakeError)
    ensures
        e.spec_kind() == ErrorKind::InvalidConfig,
{
    DataFakeError::InvalidConfig(String::from_str(msg))
}

fn parse_error(msg: &str) -> (e: DataFakeError)
    ensures
        e.spec_kind() == ErrorKind::ConfigParse,
{
    DataFakeError::ConfigParse(String::from_str(msg))
}

/// The value under a key of an object's entries; the first occurrence wins.
pub fn get_field<'a>(m: &'a Vec<(String, Value)>, key: &str) -> (r: Option<&'a Value>)
    ensures
        r matches Some(v) ==> field(key_views(m@), value_views(m@), key@) == Some(v@),
        r is None ==> field(key_views(m@), value_views(m@), key@) is None,
{
    let kc = chars_of(key);
    let mut i: usize = 0;
    while i < m.len()
        invariant
            kc@ == key@,
            i <= m.len(),
            field(key_views(m@), value_views(m@), key@) == field_from(key_views(m@), value_views(m@), key@, i as int),
        decreases m.len() - i,
    {
        let c = chars_of(m[i].0.as_str());
        if chars_eq(&c, &kc) {
            assert(key_views(m@)[i as int] == key@);
            return Some(&m[i].1);
        }
        i = i + 1;
    }
    None
}

/// Whether a method name names a numeric kind.
fn numeric_method(m: &str) -> (r: bool)
    ensures
        r == is_numeric_method(m@),
{
    let c = chars_of(m);
    chars_eq(&c, &chars_of("u8")) || chars_eq(&c, &chars_of("u16")) || chars_eq(&c, &chars_of("u32"))
        || chars_eq(&c, &chars_of("u64")) || chars_eq(&c, &chars_of("i8")) || chars_eq(&c, &chars_of("i16"))
        || chars_eq(&c, &chars_of("i32")) || chars_eq(&c, &chars_of("i64")) || chars_eq(&c, &chars_of("f32"))
        || chars_eq(&c, &chars_of("f64"))
}

/// The map from a document's entries to bindings.
proof fn lemma_entries(m: Vec<(String, Value)>)
    ensures
        entries(key_views(m@), value_views(m@)) == bindings(m@),
{
    assert(entries(key_views(m@), value_views(m@)) =~= bindings(m@));
}

impl ConfigParser {
    /// Reads a range bound.
    fn extract_number(value: &Value) -> (r: Result<i128, DataFakeError>)
        ensures
            bound_of(value@) matches Ok(n) ==> (r matches Ok(m) && m as int == n),
            bound_of(value@) matches Err(k) ==> (r matches Err(e) && e.spec_kind() == k),
    {
        match value {
            Value::Int(n) => Ok(*n),
            Value::Float(_) => Err(DataFakeError::TypeConversion(String::from_str("non-integral bounds are not compared"))),
            _ => Err(DataFakeError::TypeConversion(String::from_str("Expected a number"))),
        }
    }

    /// Checks the argument list of the generation operator.
    fn validate_fake_operator(args: &Value) -> (r: Result<(), DataFakeError>)
        ensures
            check_fake_args(args@) matches Some(f) ==> (r matches Err(e) && error_is(e, f)),
            check_fake_args(args@) is None ==> r is Ok,
    {
        match args {
            Value::Array(arr) => {
                proof {
                    lemma_array_view(*arr);
                }
                if arr.len() == 0 {
                    return Err(invalid("Fake operator requires at least one argument"));
                }
                assert(views(arr@)[0] == arr@[0]@);
                match &arr[0] {
                    Value::Str(method) => {
                        if method.as_str().unicode_len() == 0 {
                            return Err(invalid("Fake method name cannot be empty"));
                        }
                        if numeric_method(method.as_str()) {
                            if arr.len() == 3 {
                                assert(views(arr@)[1] == arr@[1]@);
                                assert(views(arr@)[2] == arr@[2]@);
                                let min = Self::extract_number(&arr[1])?;
                                let max = Self::extract_number(&arr[2])?;
                                if min > max {
                                    return Err(DataFakeError::InvalidRange { min, max });
                                }
                            } else if arr.len() != 1 {
                                return Err(invalid("Numeric kinds take either no bounds or two"));
                            }
                        }
                        Ok(())
                    },
                    _ => Err(invalid("First argument of fake operator must be a string")),
                }
            },
            _ => Err(invalid("Fake operator arguments must be an array")),
        }
    }

    /// Checks an object that holds `fake` or `var`.
    fn validate_jsonlogic_expression(value: &Value) -> (r: Result<(), DataFakeError>)
        ensures
            check_expression(value@) matches Some(f) ==> (r matches Err(e) && error_is(e, f)),
            check_expression(value@) is None ==> r is Ok,
    {
        match value {
            Value::Object(m) => {
                proof {
                    lemma_object_view(*m);
                }
                match get_field(m, "fake") {
                    Some(args) => Self::validate_fake_operator(args),
                    None => match get_field(m, "var") {
                        Some(Value::Str(name)) => {
                            if name.as_str().unicode_len() == 0 {
                                Err(invalid("Variable reference cannot be empty"))
                            } else {
                                Ok(())
                            }
                        },
                        _ => Ok(()),
                    },
                }
            },
            _ => Ok(()),
        }
    }

    /// Checks a node: no `null`, no empty key, well-formed expressions.
    fn validate_schema(schema: &Value) -> (r: Result<(), DataFakeError>)
        ensures
            check_node(schema@) matches Some(f) ==> (r matches Err(e) && error_is(e, f)),
            check_node(schema@) is None ==> r is Ok,
        decreases schema,
    {
        match schema {
            Value::Object(m) => {
                proof {
                    lemma_object_view(*m);
                }
                if get_field(m, "fake").is_some() || get_field(m, "var").is_some() {
                    Self::validate_jsonlogic_expression(schema)?;
                }
                let ghost ks = key_views(m@);
                let ghost vs = value_views(m@);
                let mut i: usize = 0;
                while i < m.len()
                    invariant
                        *schema == Value::Object(*m),
                        ks == key_views(m@),
                        vs == value_views(m@),
                        i <= m.len(),
                        check_node(schema@) == check_entries(ks, vs, i as int),
                    decreases m.len() - i,
                {
                    proof {
                        assert(decreases_to!(*schema => schema->Object_0));
                        assert(decreases_to!(schema->Object_0 => schema->Object_0[i as int]));
                        assert(decreases_to!(schema->Object_0[i as int] => schema->Object_0[i as int].1));
                    }
                    assert(ks[i as int] == m@[i as int].0@);
                    assert(vs[i as int] == m@[i as int].1@);
                    if m[i].0.as_str().unicode_len() == 0 {
                        return Err(invalid("Schema key cannot be empty"));
                    }
                    Self::validate_schema(&m[i].1)?;
                    i = i + 1;
                }
                Ok(())
            },
            Value::Array(a) => {
                proof {
                    lemma_array_view(*a);
                }
                let ghost va = views(a@);
                let mut i: usize = 0;
                while i < a.len()
                    invariant
                        *schema == Value::Array(*a),
                        va == views(a@),
                        i <= a.len(),
                        check_node(schema@) == check_items(va, i as int),
                    decreases a.len() - i,
                {
                    proof {
                        assert(decreases_to!(*schema => schema->Array_0));
                        assert(decreases_to!(schema->Array_0 => schema->Array_0[i as int]));
                    }
                    assert(va[i as int] == a@[i as int]@);
                    Self::validate_schema(&a[i])?;
                    i = i + 1;
                }
                Ok(())
            },
            Value::Null => Err(invalid("Schema values cannot be null")),
            _ => Ok(()),
        }
    }

    /// Checks the variables, in order.
    fn validate_variables(variables: &Vec<(String, Value)>) -> (r: Result<(), DataFakeError>)
        ensures
            check_variables(bindings(variables@), 0) matches Some(f) ==> (r matches Err(e) && error_is(e, f)),
            check_variables(bindings(variables@), 0) is None ==> r is Ok,
    {
        let ghost vars = bindings(variables@);
        let mut i: usize = 0;
        while i < variables.len()
            invariant
                vars == bindings(variables@),
                i <= variables.len(),
                check_variables(vars, 0) == check_variables(vars, i as int),
            decreases variables.len() - i,
        {
            let name = &variables[i].0;
            let value = &variables[i].1;
            if name.as_str().unicode_len() == 0 {
                return Err(invalid("Variable name cannot be empty"));
            }
            if value.is_null() {
                return Err(invalid("Variable cannot be null"));
            }
            Self::validate_schema(value)?;
            i = i + 1;
        }
        Ok(())
    }

    /// Checks a configuration: a schema that is not null, its variables,
    /// then its schema.
    pub fn validate_config(config: &DataFakeConfig) -> (r: Result<(), DataFakeError>)
        ensures
            check_config(config_model(*config).0, config_model(*config).1) matches Some(f) ==> (r matches Err(e) && error_is(e, f)),
            check_config(config_model(*config).0, config_model(*config).1) is None ==> r is Ok,
    {
        if config.schema.is_null() {
            return Err(invalid("Schema cannot be null"));
        }
        Self::validate_variables(&config.variables)?;
        Self::validate_schema(&config.schema)
    }

    /// Reads a descriptive field of the metadata.
    fn read_text_field(m: &Vec<(String, Value)>, key: &str) -> (r: Result<Option<String>, DataFakeError>)
        ensures
            r is Ok <==> (field(key_views(m@), value_views(m@), key@) matches Some(x) ==> (x is Str || x is Null)),
            r is Err ==> r->Err_0.spec_kind() == ErrorKind::ConfigParse,
            r matches Ok(t) ==> text_view(t) == text_field(key_views(m@), value_views(m@), key@),
    {
        match get_field(m, key) {
            None => Ok(None),
            Some(Value::Null) => Ok(None),
            Some(Value::Str(s)) => Ok(Some(s.clone())),
            Some(_) => Err(parse_error("metadata fields must be texts")),
        }
    }

    /// Reads the metadata; `null` is no metadata.
    fn read_metadata(value: &Value) -> (r: Result<Option<Metadata>, DataFakeError>)
        ensures
            r is Ok <==> metadata_ok(value@),
            r is Err ==> r->Err_0.spec_kind() == ErrorKind::ConfigParse,
            r matches Ok(md) ==> metadata_view(md) == (match value@ {
                Json::Object(mk, mv) => Some(
                    (
                        text_field(mk, mv, "name"@),
                        text_field(mk, mv, "version"@),
                        text_field(mk, mv, "description"@),
                        extra_from(mk, mv, mv.len() as int),
                    ),
                ),
                _ => None::<MetadataModel>,
            }),
    {
        match value {
            Value::Null => Ok(None),
            Value::Object(m) => {
                proof {
                    lemma_object_view(*m);
                }
                let name = Self::read_text_field(m, "name")?;
                let version = Self::read_text_field(m, "version")?;
                let description = Self::read_text_field(m, "description")?;
                let ghost mk = key_views(m@);
                let ghost mv = value_views(m@);
                let mut extra: Vec<(String, Value)> = Vec::new();
                let mut i: usize = 0;
                assert(bindings(extra@) =~= Seq::<(Seq<char>, Json)>::empty());
                while i < m.len()
                    invariant
                        mk == key_views(m@),
                        mv == value_views(m@),
                        i <= m.len(),
                        bindings(extra@) == extra_from(mk, mv, i as int),
                    decreases m.len() - i,
                {
                    let k = m[i].0.as_str();
                    assert(mk[i as int] == m@[i as int].0@);
                    assert(mv[i as int] == m@[i as int].1@);
                    if !(crate::value::str_eq(k, "name") || crate::value::str_eq(k, "version")
                        || crate::value::str_eq(k, "description")) {
                        let ghost before = extra@;
                        extra.push((m[i].0.clone(), m[i].1.deep_clone()));
                        assert(bindings(extra@) =~= bindings(before).push((mk[i as int], mv[i as int])));
                    }
                    i = i + 1;
                }
                Ok(Some(Metadata { name, version, description, extra }))
            },
            _ => Err(parse_error("metadata must be an object")),
        }
    }

    /// Reads the structure of a configuration document.
    fn read_config(doc: &Value) -> (r: Result<DataFakeConfig, DataFakeError>)
        ensures
            read_doc(doc@) matches Ok(c) ==> (r matches Ok(x) && config_model(x) == c),
            read_doc(doc@) matches Err(f) ==> (r matches Err(e) && error_is(e, f)),
            r matches Ok(x) ==> metadata_view(x.metadata) == doc_metadata(doc@),
    {
        match doc {
            Value::Object(m) => {
                proof {
                    lemma_object_view(*m);
                }
                let schema = match get_field(m, "schema") {
                    Some(s) => s.deep_clone(),
                    None => {
                        return Err(parse_error("missing field `schema`"));
                    },
                };
                let variables = match get_field(m, "variables") {
                    None => {
                        let e: Vec<(String, Value)> = Vec::new();
                        assert(bindings(e@) =~= Seq::<(Seq<char>, Json)>::empty());
                        e
                    },
                    Some(Value::Object(vm)) => {
                        proof {
                            lemma_object_view(*vm);
                            lemma_entries(*vm);
                        }
                        let r = clone_entries(vm);
                        proof {
                            lemma_entries(r);
                        }
                        r
                    },
                    Some(_) => {
                        return Err(parse_error("variables must be an object"));
                    },
                };
                let metadata = match get_field(m, "metadata") {
                    None => None,
                    Some(meta) => Self::read_metadata(meta)?,
                };
                let r = DataFakeConfig { metadata, variables, schema };
                Ok(r)
            },
            _ => Err(parse_error("a configuration must be an object")),
        }
    }

    /// Parses and validates a configuration document.
    pub fn parse_value(json_value: Value) -> (r: Result<DataFakeConfig, DataFakeError>)
        ensures
            parse_doc(json_value@) matches Ok(c) ==> (r matches Ok(x) && config_model(x) == c),
            parse_doc(json_value@) matches Err(f) ==> (r matches Err(e) && error_is(e, f)),
            r matches Ok(x) ==> metadata_view(x.metadata) == doc_metadata(json_value@),
    {
        let config = Self::read_config(&json_value)?;
        Self::validate_config(&config)?;
        Ok(config)
    }

    /// A context that binds each variable to its unevaluated node.
    pub fn create_context(config: &DataFakeConfig) -> (r: GenerationContext)
        ensures
            r@ == bindings(config.variables@),
    {
        let vars = clone_entries(&config.variables);
        assert(bindings(vars@) =~= bindings(config.variables@));
        GenerationContext::with_variables(vars)
    }
}

} // verus!
