use azure_api::body::{BodyBuilder, BodyError, BodyValue, TypeFamily};
use azure_api::bound_args::{ArgValue, BoundArgs};
use azure_api::metadata_command::{Body, BodyJSON, Http, Method, Operation, Request, RequestPath, RequestQuery, Schema};
use serde_json::Value;

fn to_json(v: &BodyValue) -> Value {
    match v {
        BodyValue::Bool(b) => Value::Bool(*b),
        BodyValue::Int(i) => Value::from(*i),
        BodyValue::Str(s) => Value::String(s.clone()),
        BodyValue::Raw(t) => serde_json::from_str(t).unwrap(),
        BodyValue::Object(fields) => {
            let mut map = serde_json::Map::new();
            for (k, v) in fields {
                map.insert(k.clone(), to_json(v));
            }
            Value::Object(map)
        }
    }
}

fn leaf(type_: &str, arg: &str) -> Schema {
    Schema {
        type_: type_.to_string(),
        arg: Some(arg.to_string()),
        name: Some(arg.to_string()),
        ..Schema::default()
    }
}

fn bind(pairs: &[(&str, ArgValue)]) -> BoundArgs {
    let mut args = BoundArgs::new();
    for (k, v) in pairs {
        args.insert(k.to_string(), v.clone());
    }
    args
}

#[test]
fn build_value() {
    let m = bind(&[
        ("bool", ArgValue::Str("true".to_string())),
        ("int", ArgValue::Str("123".to_string())),
        ("str", ArgValue::Str("abc".to_string())),
        ("array-of-str", ArgValue::Str(r#"["a", "b", "c"]"#.to_string())),
        (
            "obj",
            ArgValue::Str(r#"{"bool": true, "int": 123, "str": "abc", "array": ["a"]}"#.to_string()),
        ),
    ]);

    let array = Schema {
        item: Some(Box::new(Schema { type_: "string".to_string(), ..Schema::default() })),
        ..leaf("array", "array-of-str")
    };
    let schema = Schema {
        type_: "object".to_string(),
        props: Some(vec![
            leaf("boolean", "bool"),
            leaf("integer32", "int"),
            leaf("string", "str"),
            array.clone(),
            Schema {
                props: Some(vec![
                    leaf("boolean", "bool"),
                    leaf("integer32", "int"),
                    leaf("string", "str"),
                    array,
                ]),
                ..leaf("object", "obj")
            },
        ]),
        ..Schema::default()
    };
    let bb = BodyBuilder(&m);
    let value = bb.build_body(&schema).unwrap();
    let expect: Value = serde_json::from_str(
        r#"
{
  "array-of-str": [
    "a",
    "b",
    "c"
  ],
  "bool": true,
  "int": 123,
  "obj": {
    "array": [
      "a"
    ],
    "bool": true,
    "int": 123,
    "str": "abc"
  },
  "str": "abc"
}
"#,
    )
    .unwrap();
    assert_eq!(to_json(&value), expect);
}

#[test]
fn typed_values_build_the_expected_body() {
    let args = bind(&[("bool", ArgValue::Bool(true)), ("int", ArgValue::Int(123))]);
    let schema = Schema {
        type_: "object".to_string(),
        props: Some(vec![leaf("boolean", "bool"), leaf("integer32", "int")]),
        ..Schema::default()
    };
    let body = BodyBuilder(&args).build_body(&schema).unwrap();
    let expect: Value = serde_json::from_str(r#"{"bool": true, "int": 123}"#).unwrap();
    assert_eq!(to_json(&body), expect);
}

#[test]
fn unbound_fields_are_left_out() {
    let args = bind(&[("a", ArgValue::Str("x".to_string()))]);
    let schema = Schema {
        type_: "object".to_string(),
        props: Some(vec![
            leaf("string", "a"),
            leaf("string", "b"),
            Schema {
                type_: "object".to_string(),
                name: Some("nested".to_string()),
                props: Some(vec![leaf("string", "c")]),
                ..Schema::default()
            },
        ]),
        ..Schema::default()
    };
    let body = BodyBuilder(&args).build_body(&schema).unwrap();
    assert_eq!(to_json(&body), serde_json::from_str::<Value>(r#"{"a": "x"}"#).unwrap());

    let empty = BoundArgs::new();
    let body = BodyBuilder(&empty).build_body(&schema).unwrap();
    assert_eq!(to_json(&body), serde_json::from_str::<Value>("{}").unwrap());
}

#[test]
fn other_types_fall_back_to_a_string() {
    let args = bind(&[
        ("loc", ArgValue::Str("westus".to_string())),
        ("n", ArgValue::Str("7".to_string())),
    ]);
    let schema = Schema {
        type_: "object".to_string(),
        props: Some(vec![leaf("ResourceLocation", "loc"), leaf("Custom", "n")]),
        ..Schema::default()
    };
    let body = BodyBuilder(&args).build_body(&schema).unwrap();
    assert_eq!(to_json(&body), serde_json::from_str::<Value>(r#"{"loc": "westus", "n": 7}"#).unwrap());
}

#[test]
fn body_errors() {
    let args = bind(&[("arr", ArgValue::Str("not json".to_string()))]);
    let no_props = Schema { type_: "object".to_string(), ..Schema::default() };
    assert!(matches!(BodyBuilder(&args).build_body(&no_props), Err(BodyError::MissingTopLevelProps)));

    let bad_array = Schema {
        type_: "object".to_string(),
        props: Some(vec![leaf("array", "arr")]),
        ..Schema::default()
    };
    match BodyBuilder(&args).build_body(&bad_array) {
        Err(BodyError::InvalidJson(a)) => assert_eq!(a, "arr"),
        other => panic!("unexpected {other:?}"),
    }

    let unnamed = Schema {
        type_: "object".to_string(),
        props: Some(vec![Schema { type_: "string".to_string(), arg: Some("x".to_string()), ..Schema::default() }]),
        ..Schema::default()
    };
    assert!(matches!(BodyBuilder(&args).build_body(&unnamed), Err(BodyError::PropertyWithoutName)));

    let bare_object = Schema {
        type_: "object".to_string(),
        props: Some(vec![Schema { type_: "object".to_string(), name: Some("o".to_string()), ..Schema::default() }]),
        ..Schema::default()
    };
    assert!(matches!(BodyBuilder(&args).build_body(&bare_object), Err(BodyError::ObjectWithoutArgOrProps)));

    let no_arg = Schema {
        type_: "object".to_string(),
        props: Some(vec![Schema { type_: "string".to_string(), name: Some("s".to_string()), ..Schema::default() }]),
        ..Schema::default()
    };
    assert!(matches!(BodyBuilder(&args).build_body(&no_arg), Err(BodyError::SchemaWithoutArg)));

    let json_args = bind(&[("j", ArgValue::Json("{oops".to_string()))]);
    let json_leaf = Schema {
        type_: "object".to_string(),
        props: Some(vec![leaf("Custom", "j")]),
        ..Schema::default()
    };
    assert!(matches!(BodyBuilder(&json_args).build_body(&json_leaf), Err(BodyError::InvalidJson(_))));
}

#[test]
fn type_families() {
    assert_eq!(azure_api::body::family("object"), TypeFamily::Object);
    assert_eq!(azure_api::body::family("string"), TypeFamily::String);
    assert_eq!(azure_api::body::family("array<string>"), TypeFamily::Array);
    assert_eq!(azure_api::body::family("integer64"), TypeFamily::Integer);
    assert_eq!(azure_api::body::family("boolean"), TypeFamily::Boolean);
    assert_eq!(azure_api::body::family("ResourceId"), TypeFamily::Other);
}

#[test]
fn built_members_are_found_by_schema_path() {
    let args = bind(&[("n", ArgValue::Str("net1".to_string())), ("c", ArgValue::Int(24))]);
    let schema = Schema {
        type_: "object".to_string(),
        props: Some(vec![
            leaf("string", "n"),
            Schema {
                type_: "object".to_string(),
                name: Some("properties".to_string()),
                props: Some(vec![leaf("integer32", "c")]),
                ..Schema::default()
            },
        ]),
        ..Schema::default()
    };
    let body = BodyBuilder(&args).build_body(&schema).unwrap();
    let json = to_json(&body);
    assert_eq!(json["properties"]["c"], Value::from(24));
    let op = Operation {
        operation_id: None,
        http: Some(Http {
            path: "/x".to_string(),
            request: Request {
                method: Method::Put,
                path: RequestPath { params: vec![] },
                query: RequestQuery { consts: vec![], params: None },
                body: Some(Body { json: BodyJSON { schema: Some(schema), var: None, ref_: None } }),
            },
            responses: vec![],
        }),
        when: None,
    };
    for path in [vec!["n"], vec!["properties"], vec!["properties", "c"]] {
        let node = op.schema_by_path(&path).unwrap();
        assert_eq!(node.name.as_deref(), Some(*path.last().unwrap()));
    }
}
