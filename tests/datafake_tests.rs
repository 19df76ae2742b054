use datafake::{
    ConfigParser, DataFakeError, DataGenerator, Engine, ErrorKind, FakeOperator, GenerationContext,
    Value,
};

fn from_serde(v: serde_json::Value) -> Value {
    match v {
        serde_json::Value::Null => Value::Null,
        serde_json::Value::Bool(b) => Value::Bool(b),
        serde_json::Value::Number(n) => {
            if let Some(i) = n.as_i64() {
                Value::Int(i as i128)
            } else if let Some(u) = n.as_u64() {
                Value::Int(u as i128)
            } else {
                Value::Float(n.to_string())
            }
        }
        serde_json::Value::String(s) => Value::Str(s),
        serde_json::Value::Array(a) => Value::Array(a.into_iter().map(from_serde).collect()),
        serde_json::Value::Object(m) => {
            Value::Object(m.into_iter().map(|(k, v)| (k, from_serde(v))).collect())
        }
    }
}

fn doc(text: &str) -> Value {
    from_serde(serde_json::from_str(text).unwrap())
}

fn s(text: &str) -> Value {
    Value::Str(text.to_string())
}

fn field<'a>(v: &'a Value, key: &str) -> &'a Value {
    v.get(key).unwrap()
}

fn entries(v: Value) -> Vec<(String, Value)> {
    match v {
        Value::Object(m) => m,
        _ => panic!("not an object"),
    }
}

fn kind<T>(r: Result<T, DataFakeError>) -> ErrorKind {
    match r {
        Ok(_) => panic!("expected an error"),
        Err(e) => e.kind(),
    }
}

#[test]
fn test_parse_valid_config() {
    let config_json = r#"{
        "metadata": {
            "name": "Test Config",
            "version": "1.0.0"
        },
        "variables": {
            "userId": {"fake": ["uuid"]}
        },
        "schema": {
            "id": {"var": "userId"},
            "name": {"fake": ["name", "en_US"]}
        }
    }"#;

    let result = ConfigParser::parse_value(doc(config_json));
    assert!(result.is_ok());
    let config = result.unwrap();
    assert!(config.metadata.is_some());
    assert_eq!(config.variables.len(), 1);
}

#[test]
fn test_parse_minimal_config() {
    let config_json = r#"{
        "schema": {
            "name": {"fake": ["name"]}
        }
    }"#;

    let result = ConfigParser::parse_value(doc(config_json));
    assert!(result.is_ok());
}

#[test]
fn test_invalid_empty_schema() {
    let config_json = r#"{
            "schema": null
        }"#;

    let result = ConfigParser::parse_value(doc(config_json));
    assert!(result.is_err());
}

#[test]
fn test_invalid_fake_operator_no_args() {
    let config_json = r#"{
        "schema": {
            "field": {"fake": []}
        }
    }"#;

    let result = ConfigParser::parse_value(doc(config_json));
    assert!(result.is_err());
}

#[test]
fn test_invalid_numeric_range() {
    let config_json = r#"{
        "schema": {
            "age": {"fake": ["u8", 100, 0]}
        }
    }"#;

    let result = ConfigParser::parse_value(doc(config_json));
    assert!(result.is_err());
}

#[test]
fn test_valid_numeric_range() {
    let config_json = r#"{
        "schema": {
            "age": {"fake": ["u8", 0, 100]}
        }
    }"#;

    let result = ConfigParser::parse_value(doc(config_json));
    assert!(result.is_ok());
}

#[test]
fn test_empty_variable_name() {
    let config_json = r#"{
        "variables": {
            "": {"fake": ["uuid"]}
        },
        "schema": {}
    }"#;

    let result = ConfigParser::parse_value(doc(config_json));
    assert!(result.is_err());
}

#[test]
fn test_complex_nested_schema() {
    let config_json = r#"{
        "variables": {
            "country": {"fake": ["country_code"]}
        },
        "schema": {
            "users": [
                {
                    "id": {"fake": ["uuid"]},
                    "profile": {
                        "name": {"fake": ["name", "en_US"]},
                        "address": {
                            "street": {"fake": ["street_address"]},
                            "country": {"var": "country"}
                        }
                    }
                }
            ]
        }
    }"#;

    let result = ConfigParser::parse_value(doc(config_json));
    assert!(result.is_ok());
}

#[test]
fn test_evaluate_simple_fake() {
    let expression = doc(r#"{"fake": ["uuid"]}"#);
    let context = GenerationContext::new();
    let result = Engine::evaluate(&expression, &context).unwrap();
    assert!(result.is_string());
    assert_eq!(result.as_str().unwrap().len(), 36);
}

#[test]
fn test_evaluate_var_reference() {
    let expression = doc(r#"{"var": "userId"}"#);
    let mut context = GenerationContext::new();
    context.set_variable("userId".to_string(), s("test-id-123"));

    let result = Engine::evaluate(&expression, &context).unwrap();
    assert_eq!(result.as_str(), Some("test-id-123"));
}

#[test]
fn test_process_schema_nested() {
    let schema = doc(r#"{
        "id": {"fake": ["uuid"]},
        "user": {
            "name": {"fake": ["name"]},
            "email": {"fake": ["email"]}
        }
    }"#);

    let context = GenerationContext::new();
    let result = Engine::process_schema(&schema, &context).unwrap();

    assert!(field(&result, "id").is_string());
    assert!(field(field(&result, "user"), "name").is_string());
    assert!(field(field(&result, "user"), "email").as_str().unwrap().contains('@'));
}

#[test]
fn test_process_schema_with_array() {
    let schema = doc(r#"{
        "tags": [
            {"fake": ["word"]},
            {"fake": ["word"]},
            {"fake": ["word"]}
        ]
    }"#);

    let context = GenerationContext::new();
    let result = Engine::process_schema(&schema, &context).unwrap();

    assert!(field(&result, "tags").is_array());
    assert_eq!(field(&result, "tags").as_array().unwrap().len(), 3);
}

#[test]
fn test_generate_variables() {
    let variables = entries(doc(r#"{
        "userId": {"fake": ["uuid"]},
        "timestamp": {"fake": ["u64", 1000000, 9999999]}
    }"#));

    let result = Engine::generate_variables(&variables).unwrap();
    let result = Value::Object(result);

    assert!(result.get("userId").is_some());
    assert!(result.get("timestamp").is_some());
    assert!(field(&result, "userId").is_string());
    assert!(field(&result, "timestamp").is_number());
}

#[test]
fn test_process_schema_with_cat_operator() {
    let schema = doc(r#"{
        "terminal": {"cat": ["ABCD", "XXXX"]},
        "code": {"cat": [{"var": "prefix"}, "-", {"var": "suffix"}]}
    }"#);

    let mut context = GenerationContext::new();
    context.set_variable("prefix".to_string(), s("PRE"));
    context.set_variable("suffix".to_string(), s("SUF"));

    let result = Engine::process_schema(&schema, &context).unwrap();

    assert_eq!(field(&result, "terminal").as_str(), Some("ABCDXXXX"));
    assert_eq!(field(&result, "code").as_str(), Some("PRE-SUF"));
}

#[test]
fn test_jsonlogic_operators_in_schema() {
    let schema = doc(r#"{
        "isActive": {"==": [{"var": "status"}, "active"]},
        "fullName": {"cat": [{"var": "firstName"}, " ", {"var": "lastName"}]},
        "age": {"+": [{"var": "baseAge"}, 10]},
        "hasDiscount": {">": [{"var": "purchases"}, 5]}
    }"#);

    let mut context = GenerationContext::new();
    context.set_variable("status".to_string(), s("active"));
    context.set_variable("firstName".to_string(), s("John"));
    context.set_variable("lastName".to_string(), s("Doe"));
    context.set_variable("baseAge".to_string(), Value::Int(20));
    context.set_variable("purchases".to_string(), Value::Int(10));

    let result = Engine::process_schema(&schema, &context).unwrap();

    assert_eq!(field(&result, "isActive").as_bool(), Some(true));
    assert_eq!(field(&result, "fullName").as_str(), Some("John Doe"));
    assert_eq!(field(&result, "age").as_int(), Some(30));
    assert_eq!(field(&result, "hasDiscount").as_bool(), Some(true));
}

#[test]
fn test_preserve_structure_with_custom_operators() {
    let schema = doc(r#"{
        "user": {
            "id": {"fake": ["uuid"]},
            "profile": {
                "name": {"fake": ["name"]},
                "age": {"fake": ["u8", 18, 65]},
                "nested": {
                    "email": {"fake": ["email"]},
                    "active": true,
                    "count": 42
                }
            }
        },
        "metadata": {
            "version": "1.0",
            "generated": {"fake": ["bool"]}
        }
    }"#);

    let context = GenerationContext::new();
    let result = Engine::process_schema(&schema, &context).unwrap();

    let user = field(&result, "user");
    let profile = field(user, "profile");
    let nested = field(profile, "nested");
    assert!(field(user, "id").is_string());
    assert_eq!(field(user, "id").as_str().unwrap().len(), 36);
    assert!(field(profile, "name").is_string());
    assert!(field(profile, "age").is_number());
    let age = field(profile, "age").as_int().unwrap();
    assert!((18..=65).contains(&age));
    assert!(field(nested, "email").as_str().unwrap().contains('@'));
    assert_eq!(field(nested, "active").as_bool(), Some(true));
    assert_eq!(field(nested, "count").as_int(), Some(42));
    assert_eq!(field(field(&result, "metadata"), "version").as_str(), Some("1.0"));
    assert!(field(field(&result, "metadata"), "generated").is_boolean());
}

#[test]
fn test_from_json() {
    let config_json = r#"{
        "schema": {
            "id": {"fake": ["uuid"]},
            "name": {"fake": ["name"]}
        }
    }"#;

    let generator = DataGenerator::from_value(doc(config_json)).unwrap();
    let result = generator.generate().unwrap();

    assert!(field(&result, "id").is_string());
    assert!(field(&result, "name").is_string());
}

#[test]
fn test_with_variables() {
    let config_json = r#"{
        "variables": {
            "userId": {"fake": ["uuid"]},
            "country": {"fake": ["country_code"]}
        },
        "schema": {
            "id": {"var": "userId"},
            "location": {
                "country": {"var": "country"},
                "city": {"fake": ["city_name"]}
            }
        }
    }"#;

    let generator = DataGenerator::from_value(doc(config_json)).unwrap();
    let result = generator.generate().unwrap();

    assert!(field(&result, "id").is_string());
    assert_eq!(field(&result, "id").as_str(), field(&result, "id").as_str());
    assert!(field(field(&result, "location"), "country").is_string());
    assert!(field(field(&result, "location"), "city").is_string());
}

#[test]
fn test_generate_batch() {
    let config_json = r#"{
        "schema": {
            "id": {"fake": ["uuid"]},
            "timestamp": {"fake": ["u64"]}
        }
    }"#;

    let generator = DataGenerator::from_value(doc(config_json)).unwrap();
    let results = generator.generate_batch(5).unwrap();

    assert_eq!(results.len(), 5);

    let mut ids = std::collections::HashSet::new();
    for result in results {
        assert!(field(&result, "id").is_string());
        assert!(field(&result, "timestamp").is_number());
        ids.insert(field(&result, "id").as_str().unwrap().to_string());
    }
    assert_eq!(ids.len(), 5);
}

#[test]
fn test_complex_schema() {
    let config = doc(r#"{
        "metadata": {
            "name": "User Profile Generator",
            "version": "1.0.0"
        },
        "variables": {
            "userId": {"fake": ["uuid"]},
            "createdAt": {"fake": ["u64", 1000000000, 1700000000]}
        },
        "schema": {
            "id": {"var": "userId"},
            "profile": {
                "firstName": {"fake": ["first_name"]},
                "lastName": {"fake": ["last_name"]},
                "email": {"fake": ["email"]},
                "age": {"fake": ["u8", 18, 65]}
            },
            "address": {
                "street": {"fake": ["street_address"]},
                "city": {"fake": ["city_name"]},
                "zipCode": {"fake": ["zip_code"]}
            },
            "metadata": {
                "createdAt": {"var": "createdAt"},
                "updatedAt": {"fake": ["u64", 1700000000, 1800000000]}
            }
        }
    }"#);

    let generator = DataGenerator::from_value(config).unwrap();
    let result = generator.generate().unwrap();

    assert!(field(&result, "id").is_string());
    assert!(field(field(&result, "profile"), "firstName").is_string());
    assert!(field(field(&result, "profile"), "email").as_str().unwrap().contains('@'));
    assert!(field(field(&result, "address"), "street").is_string());
    assert!(field(field(&result, "metadata"), "createdAt").is_number());

    assert_eq!(field(&result, "id").as_str(), field(&result, "id").as_str());
    assert_eq!(
        field(field(&result, "metadata"), "createdAt").as_int(),
        field(field(&result, "metadata"), "createdAt").as_int()
    );
}

#[test]
fn test_generate_uuid() {
    let args = vec![s("uuid")];
    let result = FakeOperator::generate(&args).unwrap();
    assert!(result.is_string());
    assert_eq!(result.as_str().unwrap().len(), 36);
}

#[test]
fn test_generate_numeric_no_range() {
    let args = vec![s("u8")];
    let result = FakeOperator::generate(&args).unwrap();
    assert!(result.is_number());
}

#[test]
fn test_generate_numeric_with_range() {
    let args = vec![s("u8"), Value::Int(10), Value::Int(20)];
    let result = FakeOperator::generate(&args).unwrap();
    assert!(result.is_number());
    let value = result.as_int().unwrap();
    assert!((10..=20).contains(&value));
}

#[test]
fn test_generate_name_with_locale() {
    let args = vec![s("name"), s("en_US")];
    let result = FakeOperator::generate(&args).unwrap();
    assert!(result.is_string());
    assert!(!result.as_str().unwrap().is_empty());
}

#[test]
fn test_generate_email() {
    let args = vec![s("email")];
    let result = FakeOperator::generate(&args).unwrap();
    assert!(result.is_string());
    let email = result.as_str().unwrap();
    assert!(email.contains('@'));
}

#[test]
fn test_generate_password_with_length() {
    let args = vec![s("password"), Value::Int(10), Value::Int(15)];
    let result = FakeOperator::generate(&args).unwrap();
    assert!(result.is_string());
    let password = result.as_str().unwrap();
    assert!(password.len() >= 10 && password.len() <= 15);
}

#[test]
fn test_invalid_method() {
    let args = vec![s("invalid_method")];
    let result = FakeOperator::generate(&args);
    assert!(result.is_err());
}

#[test]
fn test_empty_args() {
    let args: Vec<Value> = vec![];
    let result = FakeOperator::generate(&args);
    assert!(result.is_err());
}

#[test]
fn scenario_uuid_field() {
    let g = DataGenerator::from_value(doc(r#"{"schema":{"id":{"fake":["uuid"]}}}"#)).unwrap();
    let out = g.generate().unwrap();
    let id = field(&out, "id").as_str().unwrap();
    assert_eq!(id.len(), 36);
    let dashes: Vec<usize> = id.char_indices().filter(|(_, c)| *c == '-').map(|(i, _)| i).collect();
    assert_eq!(dashes, vec![8, 13, 18, 23]);
    assert_eq!(&id[14..15], "4");
}

#[test]
fn scenario_variable_shared_by_references() {
    let g = DataGenerator::from_value(doc(
        r#"{"variables":{"x":{"fake":["u8",5,5]}},"schema":{"a":{"var":"x"},"b":{"var":"x"}}}"#,
    ))
    .unwrap();
    let out = g.generate().unwrap();
    assert_eq!(field(&out, "a").as_int(), Some(5));
    assert_eq!(field(&out, "b").as_int(), Some(5));
}

#[test]
fn scenario_if_selects_else_branch() {
    let g = DataGenerator::from_value(doc(r#"{"schema":{"ok":{"if":[{">":[1,2]},"bad","good"]}}}"#)).unwrap();
    let out = g.generate().unwrap();
    assert_eq!(field(&out, "ok").as_str(), Some("good"));
}

#[test]
fn scenario_batch_ids_distinct() {
    let g = DataGenerator::from_value(doc(r#"{"schema":{"id":{"fake":["uuid"]}}}"#)).unwrap();
    let results = g.generate_batch(5).unwrap();
    assert_eq!(results.len(), 5);
    let ids: std::collections::HashSet<String> =
        results.iter().map(|r| field(r, "id").as_str().unwrap().to_string()).collect();
    assert_eq!(ids.len(), 5);
}

#[test]
fn variables_key_absent_is_empty_map() {
    let a = DataGenerator::from_value(doc(r#"{"schema":{"k":{"var":"x"},"n":1}}"#)).unwrap();
    let b = DataGenerator::from_value(doc(r#"{"variables":{},"schema":{"k":{"var":"x"},"n":1}}"#)).unwrap();
    let oa = a.generate().unwrap();
    let ob = b.generate().unwrap();
    assert!(field(&oa, "k").is_null());
    assert!(field(&ob, "k").is_null());
    assert_eq!(field(&oa, "n").as_int(), Some(1));
    assert_eq!(field(&ob, "n").as_int(), Some(1));
    assert_eq!(a.config().variables.len(), 0);
    assert_eq!(b.config().variables.len(), 0);
}

#[test]
fn revalidation_gives_same_outcome() {
    let good = ConfigParser::parse_value(doc(r#"{"schema":{"age":{"fake":["u8",1,2]}}}"#)).unwrap();
    assert!(ConfigParser::validate_config(&good).is_ok());
    assert!(ConfigParser::validate_config(&good).is_ok());
    let text = r#"{"schema":{"age":{"fake":["u8",3,2]}}}"#;
    assert_eq!(kind(ConfigParser::parse_value(doc(text))), ErrorKind::InvalidRange);
    assert_eq!(kind(ConfigParser::parse_value(doc(text))), ErrorKind::InvalidRange);
}

#[test]
fn range_law_holds_for_every_integral_kind() {
    let kinds: [(&str, i128, i128); 8] = [
        ("u8", 3, 9),
        ("u16", 1000, 1010),
        ("u32", 0, 7),
        ("u64", 18446744073709551610, 18446744073709551615),
        ("i8", -128, -120),
        ("i16", -5, 5),
        ("i32", -2147483648, -2147483640),
        ("i64", 9223372036854775800, 9223372036854775807),
    ];
    for (name, lo, hi) in kinds {
        let args = vec![s(name), Value::Int(lo), Value::Int(hi)];
        for _ in 0..10000 {
            let v = FakeOperator::generate(&args).unwrap().as_int().unwrap();
            assert!(lo <= v && v <= hi);
        }
    }
}

#[test]
fn integral_kinds_stay_in_their_domain() {
    for _ in 0..1000 {
        let v = FakeOperator::generate(&[s("i8")]).unwrap().as_int().unwrap();
        assert!((-128..=127).contains(&v));
        let u = FakeOperator::generate(&[s("u16")]).unwrap().as_int().unwrap();
        assert!((0..=65535).contains(&u));
    }
}

#[test]
fn laziness_skips_failing_branches() {
    let ctx = GenerationContext::new();
    let if_node = doc(r#"{"if":[false,{"fake":["no_such_method"]},"fine"]}"#);
    assert_eq!(Engine::evaluate(&if_node, &ctx).unwrap().as_str(), Some("fine"));
    let and_node = doc(r#"{"and":[0,{"fake":["no_such_method"]}]}"#);
    assert_eq!(Engine::evaluate(&and_node, &ctx).unwrap().as_int(), Some(0));
    let or_node = doc(r#"{"or":["yes",{"fake":[]}]}"#);
    assert_eq!(Engine::evaluate(&or_node, &ctx).unwrap().as_str(), Some("yes"));
    let chosen = doc(r#"{"if":[true,{"fake":["no_such_method"]},"fine"]}"#);
    assert_eq!(kind(Engine::evaluate(&chosen, &ctx)), ErrorKind::UnknownFakeMethod);
}

#[test]
fn reversed_range_is_rejected_with_its_bounds() {
    let r = ConfigParser::parse_value(doc(r#"{"schema":{"age":{"fake":["i32",10,-3]}}}"#));
    match r {
        Err(DataFakeError::InvalidRange { min, max }) => {
            assert_eq!(min, 10);
            assert_eq!(max, -3);
        }
        _ => panic!("expected InvalidRange"),
    }
}

#[test]
fn structure_is_kept() {
    let g = DataGenerator::from_value(doc(
        r#"{"schema":{"a":[1,{"fake":["word"]},[true,"z"]],"b":{"c":"x","d":{"fake":["bool"]}}}}"#,
    ))
    .unwrap();
    let out = g.generate().unwrap();
    let a = field(&out, "a").as_array().unwrap();
    assert_eq!(a.len(), 3);
    assert_eq!(a[0].as_int(), Some(1));
    assert!(a[1].is_string());
    assert_eq!(a[2].as_array().unwrap().len(), 2);
    assert_eq!(a[2].at(1).unwrap().as_str(), Some("z"));
    let b = field(&out, "b");
    assert_eq!(field(b, "c").as_str(), Some("x"));
    assert!(field(b, "d").is_boolean());
    if let Value::Object(m) = &out {
        let keys: Vec<&str> = m.iter().map(|(k, _)| k.as_str()).collect();
        assert_eq!(keys, vec!["a", "b"]);
    }
}

#[test]
fn error_kinds_are_reported() {
    assert_eq!(kind(ConfigParser::parse_value(doc("[1]"))), ErrorKind::ConfigParse);
    assert_eq!(kind(ConfigParser::parse_value(doc(r#"{"variables":{}}"#))), ErrorKind::ConfigParse);
    assert_eq!(kind(ConfigParser::parse_value(doc(r#"{"schema":{"":1}}"#))), ErrorKind::InvalidConfig);
    assert_eq!(
        kind(ConfigParser::parse_value(doc(r#"{"schema":{"a":{"fake":["u8",1]}}}"#))),
        ErrorKind::InvalidConfig
    );
    assert_eq!(
        kind(ConfigParser::parse_value(doc(r#"{"schema":{"a":{"fake":["u8","x",3]}}}"#))),
        ErrorKind::TypeConversion
    );
    assert_eq!(kind(FakeOperator::generate(&[s("nope")])), ErrorKind::UnknownFakeMethod);
    assert_eq!(kind(FakeOperator::generate(&[Value::Int(1)])), ErrorKind::FakeOperator);
    assert_eq!(kind(FakeOperator::generate(&[s("f64")])), ErrorKind::TypeConversion);
    let ctx = GenerationContext::new();
    assert_eq!(kind(Engine::evaluate(&doc(r#"{"/":[7,2]}"#), &ctx)), ErrorKind::TypeConversion);
    assert_eq!(kind(Engine::evaluate(&doc(r#"{"%":[7,0]}"#), &ctx)), ErrorKind::TypeConversion);
    assert_eq!(kind(Engine::evaluate(&doc(r#"{"+":[1,"a"]}"#), &ctx)), ErrorKind::FakeOperator);
}

#[test]
fn arithmetic_and_comparison_values() {
    let ctx = GenerationContext::new();
    let eval = |t: &str| Engine::evaluate(&doc(t), &ctx).unwrap();
    assert_eq!(eval(r#"{"-":[10,3,2]}"#).as_int(), Some(5));
    assert_eq!(eval(r#"{"-":[4]}"#).as_int(), Some(-4));
    assert_eq!(eval(r#"{"*":[2,3,4]}"#).as_int(), Some(24));
    assert_eq!(eval(r#"{"/":[-12,4]}"#).as_int(), Some(-3));
    assert_eq!(eval(r#"{"%":[-7,3]}"#).as_int(), Some(-1));
    assert_eq!(eval(r#"{"max":[3,9,1]}"#).as_int(), Some(9));
    assert_eq!(eval(r#"{"min":[3,9,1]}"#).as_int(), Some(1));
    assert_eq!(eval(r#"{"<":["apple","banana"]}"#).as_bool(), Some(true));
    assert_eq!(eval(r#"{"<=":[2,2]}"#).as_bool(), Some(true));
    assert_eq!(eval(r#"{"==":[1,"1"]}"#).as_bool(), Some(true));
    assert_eq!(eval(r#"{"===":[1,"1"]}"#).as_bool(), Some(false));
    assert_eq!(eval(r#"{"!":[[]]}"#).as_bool(), Some(true));
    assert_eq!(eval(r#"{"!!":["x"]}"#).as_bool(), Some(true));
    assert_eq!(eval(r#"{"in":["ell","hello"]}"#).as_bool(), Some(true));
    assert_eq!(eval(r#"{"in":[3,[1,2,3]]}"#).as_bool(), Some(true));
    assert_eq!(eval(r#"{"in":["z","hello"]}"#).as_bool(), Some(false));
    assert_eq!(eval(r#"{"cat":["n=",-42,true,null]}"#).as_str(), Some("n=-42truenull"));
    assert_eq!(eval(r#"{"merge":[[1,2],3]}"#).as_array().unwrap().len(), 3);
    assert_eq!(eval(r#"{"?:":[false,1,0,2,3]}"#).as_int(), Some(3));
    assert_eq!(eval(r#"{"var":["missing","fallback"]}"#).as_str(), Some("fallback"));
    assert_eq!(
        kind(Engine::evaluate(&doc(r#"{"+":[18446744073709551615,1]}"#), &ctx)),
        ErrorKind::TypeConversion
    );
}

#[test]
fn text_generators_use_their_arguments() {
    let w = FakeOperator::generate(&[s("words"), Value::Int(3)]).unwrap();
    assert_eq!(w.as_str().unwrap().split(' ').count(), 3);
    let p = FakeOperator::generate(&[s("password")]).unwrap();
    let n = p.as_str().unwrap().chars().count();
    assert!((8..20).contains(&n));
    assert!(!FakeOperator::generate(&[s("sentence")]).unwrap().as_str().unwrap().is_empty());
    assert!(!FakeOperator::generate(&[s("paragraph"), Value::Int(1), Value::Int(2)]).unwrap().as_str().unwrap().is_empty());
    assert_eq!(kind(FakeOperator::generate(&[s("password"), Value::Int(5), Value::Int(5)])), ErrorKind::FakeOperator);
    let lat = FakeOperator::generate(&[s("latitude")]).unwrap();
    assert!(lat.is_number());
    let street = FakeOperator::generate(&[s("street_address")]).unwrap();
    assert!(street.as_str().unwrap().split(' ').next().unwrap().parse::<u32>().is_ok());
}

#[test]
fn nested_expressions_are_validated() {
    let r = ConfigParser::parse_value(doc(r#"{"schema":{"a":{"var":["x",{"fake":["u8",5,1]}]}}}"#));
    match r {
        Err(DataFakeError::InvalidRange { min, max }) => {
            assert_eq!(min, 5);
            assert_eq!(max, 1);
        }
        _ => panic!("expected InvalidRange"),
    }
    assert_eq!(
        kind(ConfigParser::parse_value(doc(r#"{"schema":{"a":{"var":["x",{"":1}]}}}"#))),
        ErrorKind::InvalidConfig
    );
    assert_eq!(
        kind(ConfigParser::parse_value(doc(
            r#"{"variables":{"v":{"cat":["a",{"fake":["i8",3,-3]}]}},"schema":{}}"#
        ))),
        ErrorKind::InvalidRange
    );
}

#[test]
fn metadata_is_read() {
    let config = ConfigParser::parse_value(doc(
        r#"{"metadata":{"name":"N","version":"2","owner":"me"},"schema":{"a":1}}"#,
    ))
    .unwrap();
    let meta = config.metadata.unwrap();
    assert_eq!(meta.name.as_deref(), Some("N"));
    assert_eq!(meta.version.as_deref(), Some("2"));
    assert!(meta.description.is_none());
    assert_eq!(meta.extra.len(), 1);
    assert_eq!(meta.extra[0].0, "owner");
    assert_eq!(meta.extra[0].1.as_str(), Some("me"));
    let none = ConfigParser::parse_value(doc(r#"{"metadata":null,"schema":{"a":1}}"#)).unwrap();
    assert!(none.metadata.is_none());
}

#[test]
fn empty_batch_is_empty() {
    let g = DataGenerator::from_value(doc(r#"{"schema":{"id":{"fake":["uuid"]}}}"#)).unwrap();
    assert_eq!(g.generate_batch(0).unwrap().len(), 0);
}

#[test]
fn drawn_texts_have_their_shape() {
    for _ in 0..200 {
        let e = FakeOperator::generate(&[s("free_email")]).unwrap();
        assert!(e.as_str().unwrap().contains('@'));
        let t = FakeOperator::generate(&[s("sentence"), Value::Int(2), Value::Int(5)]).unwrap();
        assert!(t.as_str().unwrap().ends_with('.'));
    }
}

#[test]
fn drawn_branch_is_taken_without_error() {
    let ctx = GenerationContext::new();
    let node = doc(r#"{"if":[true,{"fake":["u8",7,7]},{"fake":["no_such_method"]}]}"#);
    assert_eq!(Engine::evaluate(&node, &ctx).unwrap().as_int(), Some(7));
    let node = doc(r#"{"+":[{"fake":["u8",2,2]},{"fake":["no_such_method"]}]}"#);
    assert_eq!(kind(Engine::evaluate(&node, &ctx)), ErrorKind::UnknownFakeMethod);
}

#[test]
fn missing_substr_and_preserve() {
    let mut ctx = GenerationContext::new();
    ctx.set_variable("a".to_string(), Value::Int(1));
    let eval = |t: &str| Engine::evaluate(&doc(t), &ctx).unwrap();
    let m = eval(r#"{"missing":["a","b","c"]}"#);
    let names: Vec<&str> = m.as_array().unwrap().iter().map(|v| v.as_str().unwrap()).collect();
    assert_eq!(names, vec!["b", "c"]);
    assert_eq!(eval(r#"{"missing":[["a"]]}"#).as_array().unwrap().len(), 0);
    assert_eq!(eval(r#"{"missing_some":[1,["a","b"]]}"#).as_array().unwrap().len(), 0);
    assert_eq!(eval(r#"{"missing_some":[2,["a","b"]]}"#).as_array().unwrap().len(), 1);
    assert_eq!(eval(r#"{"substr":["jsonlogic",4]}"#).as_str(), Some("logic"));
    assert_eq!(eval(r#"{"substr":["jsonlogic",-5]}"#).as_str(), Some("logic"));
    assert_eq!(eval(r#"{"substr":["jsonlogic",1,3]}"#).as_str(), Some("son"));
    assert_eq!(eval(r#"{"substr":["jsonlogic",4,-2]}"#).as_str(), Some("log"));
    let p = eval(r#"{"preserve":{"fake":["uuid"]}}"#);
    assert!(p.get("fake").is_some());
    assert_eq!(
        kind(Engine::evaluate(&doc(r#"{"method":["abc","len"]}"#), &ctx)),
        ErrorKind::FakeOperator
    );
}

#[test]
fn dotted_var_paths_reach_into_variables() {
    let g = DataGenerator::from_value(doc(
        r#"{"variables":{"user":{"name":"Ada","address":{"city":"Paris"}},"a.b":7},
            "schema":{"n":{"var":"user.name"},"c":{"var":"user.address.city"},"d":{"var":"a.b"},
                      "z":{"var":["user.zip","none"]}}}"#,
    ))
    .unwrap();
    let out = g.generate().unwrap();
    assert_eq!(field(&out, "n").as_str(), Some("Ada"));
    assert_eq!(field(&out, "c").as_str(), Some("Paris"));
    assert_eq!(field(&out, "d").as_int(), Some(7));
    assert_eq!(field(&out, "z").as_str(), Some("none"));
}

#[test]
fn iterating_operators() {
    let mut ctx = GenerationContext::new();
    ctx.set_variable("xs".to_string(), doc("[1,2,3,4]"));
    let eval = |t: &str| Engine::evaluate(&doc(t), &ctx).unwrap();
    let m = eval(r#"{"map":[{"var":"xs"},{"*":[{"var":""},2]}]}"#);
    let ints: Vec<i128> = m.as_array().unwrap().iter().map(|v| v.as_int().unwrap()).collect();
    assert_eq!(ints, vec![2, 4, 6, 8]);
    let f = eval(r#"{"filter":[{"var":"xs"},{">":[{"var":""},2]}]}"#);
    let ints: Vec<i128> = f.as_array().unwrap().iter().map(|v| v.as_int().unwrap()).collect();
    assert_eq!(ints, vec![3, 4]);
    assert_eq!(eval(r#"{"all":[{"var":"xs"},{">":[{"var":""},0]}]}"#).as_bool(), Some(true));
    assert_eq!(eval(r#"{"all":[[],{">":[{"var":""},0]}]}"#).as_bool(), Some(false));
    assert_eq!(eval(r#"{"none":[{"var":"xs"},{">":[{"var":""},9]}]}"#).as_bool(), Some(true));
    assert_eq!(eval(r#"{"some":[{"var":"xs"},{"==":[{"var":""},3]}]}"#).as_bool(), Some(true));
    let people = eval(r#"{"map":[[{"n":"a"},{"n":"b"}],{"var":"n"}]}"#);
    let names: Vec<&str> = people.as_array().unwrap().iter().map(|v| v.as_str().unwrap()).collect();
    assert_eq!(names, vec!["a", "b"]);
    let drawn = eval(r#"{"map":[[1,2,3],{"fake":["u8",4,6]}]}"#);
    for v in drawn.as_array().unwrap() {
        assert!((4..=6).contains(&v.as_int().unwrap()));
    }
}

#[test]
fn reduce_folds_items() {
    let ctx = GenerationContext::new();
    let sum = Engine::evaluate(
        &doc(r#"{"reduce":[[1,2,3,4],{"+":[{"var":"current"},{"var":"accumulator"}]},10]}"#),
        &ctx,
    )
    .unwrap();
    assert_eq!(sum.as_int(), Some(20));
    let none = Engine::evaluate(&doc(r#"{"reduce":[[],{"var":"current"},"start"]}"#), &ctx).unwrap();
    assert_eq!(none.as_str(), Some("start"));
}
