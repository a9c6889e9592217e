use atproto_lexicon::json::Json;
use atproto_lexicon::{
    decode_doc, encode_doc, parse_json, parse_lexicon_doc, LexNumber, LexPrimitive, LexString, LexStringFormat,
    LexUserType, LexXrpcBodySchema, LexXrpcParameter, LexXrpcProcedure, LexXrpcQuery, LexXrpcSubscription,
    LexiconDoc,
};

const GET_RECORD: &str = r##"{
  "lexicon": 1,
  "id": "com.atproto.repo.getRecord",
  "defs": {
    "main": {
      "type": "query",
      "description": "Get a single record from a repository.",
      "parameters": {
        "type": "params",
        "required": ["repo", "collection", "rkey"],
        "properties": {
          "repo": {"type": "string", "format": "at-identifier", "description": "The handle or DID of the repo."},
          "collection": {"type": "string", "format": "nsid"},
          "rkey": {"type": "string"},
          "cid": {"type": "string", "format": "cid"},
          "limit": {"type": "integer", "minimum": 1, "maximum": 100, "default": 50},
          "tags": {"type": "array", "items": {"type": "string"}, "maxLength": 5}
        }
      },
      "output": {
        "encoding": "application/json",
        "schema": {
          "type": "object",
          "required": ["uri", "value"],
          "properties": {
            "uri": {"type": "string", "format": "at-uri"},
            "cid": {"type": "string", "format": "cid"},
            "value": {"type": "unknown"}
          }
        }
      },
      "errors": [{"name": "RecordNotFound", "description": "No such record."}]
    }
  }
}"##;

const CREATE_RECORD: &str = r##"{
  "lexicon": 1,
  "id": "com.atproto.repo.createRecord",
  "revision": 3,
  "description": "Create a record.",
  "defs": {
    "main": {
      "type": "procedure",
      "input": {
        "encoding": "application/json",
        "schema": {"type": "ref", "ref": "#request"}
      },
      "output": {
        "encoding": "application/json",
        "schema": {"type": "union", "refs": ["#created", "#queued"]}
      },
      "errors": [{"name": "InvalidSwap"}]
    },
    "request": {
      "type": "object",
      "required": ["repo"],
      "nullable": ["swapCommit"],
      "properties": {
        "repo": {"type": "string", "format": "did"},
        "validate": {"type": "boolean", "default": true},
        "swapCommit": {"type": "cid-link"},
        "payload": {"type": "bytes"},
        "kind": {"type": "string", "enum": ["a", "b"], "knownValues": ["a", "b", "c"], "const": "a"}
      }
    },
    "created": {"type": "token", "description": "The record was written."},
    "queued": {"type": "token"}
  }
}"##;

const SUBSCRIBE: &str = r##"{
  "lexicon": 1,
  "id": "com.atproto.sync.subscribeRepos",
  "revision": 1.5,
  "defs": {
    "main": {
      "type": "subscription",
      "parameters": {"type": "params", "properties": {"cursor": {"type": "integer"}}},
      "message": {"schema": {"type": "union", "refs": ["#commit"], "closed": false}},
      "infos": [{"name": "OutdatedCursor"}],
      "errors": [{"name": "FutureCursor"}]
    },
    "commit": {
      "type": "object",
      "properties": {
        "seq": {"type": "integer"},
        "blocks": {"type": "bytes"},
        "blobs": {"type": "array", "items": {"type": "cid-link"}},
        "image": {"type": "blob", "accept": ["image/*"], "maxSize": 1000},
        "time": {"type": "string", "format": "datetime"},
        "choice": {"type": "integer", "enum": [1, 2, 3], "const": 2}
      }
    },
    "list": {"type": "array", "items": {"type": "ref", "ref": "#commit"}, "minLength": 1},
    "image": {"type": "blob"},
    "flag": {"type": "boolean", "const": false},
    "count": {"type": "integer"},
    "name": {"type": "string", "format": "handle"},
    "anything": {"type": "unknown"},
    "entry": {"type": "record", "key": "tid", "record": {"type": "object", "properties": {"uri": {"type": "string", "format": "uri"}}}}
  }
}"##;

fn to_value(j: &Json) -> serde_json::Value {
    match j {
        Json::Null => serde_json::Value::Null,
        Json::Bool(b) => serde_json::Value::Bool(*b),
        Json::Int(i) => serde_json::Value::from(*i),
        Json::Real(t) => serde_json::from_str(t).expect("a number"),
        Json::Str(s) => serde_json::Value::String(s.clone()),
        Json::Arr(items) => serde_json::Value::Array(items.iter().map(to_value).collect()),
        Json::Obj(entries) => {
            let mut map = serde_json::Map::new();
            for (k, v) in entries {
                map.insert(k.clone(), to_value(v));
            }
            serde_json::Value::Object(map)
        }
    }
}

fn reads_back(text: &str) -> LexiconDoc {
    let doc = parse_lexicon_doc(text).expect("the document parses");
    let written = encode_doc(&doc);
    assert_eq!(decode_doc(&written).expect("what was written is read"), doc);
    let rewritten = to_value(&written).to_string();
    assert_eq!(parse_lexicon_doc(&rewritten).expect("the text written is read"), doc);
    doc
}

#[test]
fn can_parse_all_lexicons() {
    for text in [GET_RECORD, CREATE_RECORD, SUBSCRIBE] {
        parse_lexicon_doc(text).expect("Unable to parse lexicon");
    }
}

#[test]
fn query_reads_back() {
    let doc = reads_back(GET_RECORD);
    assert_eq!(doc.id, "com.atproto.repo.getRecord");
    match &doc.defs[0].value {
        LexUserType::XrpcQuery(LexXrpcQuery::Query { parameters, output, errors, .. }) => {
            match parameters.as_ref().expect("parameters") {
                atproto_lexicon::LexXrpcParameters::Params { required, properties, .. } => {
                    assert_eq!(required.as_ref().expect("required").len(), 3);
                    let names: Vec<&str> = properties.iter().map(|p| p.name.as_str()).collect();
                    assert_eq!(names, vec!["cid", "collection", "limit", "repo", "rkey", "tags"]);
                    assert!(matches!(properties[5].value, LexXrpcParameter::PrimitiveArray(_)));
                    match &properties[3].value {
                        LexXrpcParameter::Primitive(LexPrimitive::String(LexString::String { format, .. })) => {
                            assert_eq!(*format, Some(LexStringFormat::AtIdentifier));
                        }
                        other => panic!("unexpected {:?}", other),
                    }
                }
            }
            let output = output.as_ref().expect("output");
            assert_eq!(output.encoding, "application/json");
            assert!(matches!(output.schema, Some(LexXrpcBodySchema::Object(_))));
            let errors = errors.as_ref().expect("errors");
            assert_eq!(errors[0].name, "RecordNotFound");
            assert_eq!(errors[0].description.as_deref(), Some("No such record."));
        }
        other => panic!("unexpected {:?}", other),
    }
}

#[test]
fn procedure_reads_back() {
    let doc = reads_back(CREATE_RECORD);
    assert_eq!(doc.revision, Some(LexNumber::Int(3)));
    let names: Vec<&str> = doc.defs.iter().map(|d| d.name.as_str()).collect();
    assert_eq!(names, vec!["created", "main", "queued", "request"]);
    match &doc.defs[1].value {
        LexUserType::XrpcProcedure(LexXrpcProcedure::Procedure { input, output, .. }) => {
            assert!(matches!(input.as_ref().expect("input").schema, Some(LexXrpcBodySchema::RefVariant(_))));
            assert!(matches!(output.as_ref().expect("output").schema, Some(LexXrpcBodySchema::RefVariant(_))));
        }
        other => panic!("unexpected {:?}", other),
    }
}

#[test]
fn subscription_reads_back() {
    let doc = reads_back(SUBSCRIBE);
    assert_eq!(doc.revision, Some(LexNumber::Real("1.5".to_string())));
    let main = doc.defs.iter().find(|d| d.name == "main").expect("main");
    match &main.value {
        LexUserType::XrpcSubscription(LexXrpcSubscription::Subscription { message, infos, errors, .. }) => {
            assert!(message.as_ref().expect("message").schema.is_some());
            assert_eq!(infos.as_ref().expect("infos")[0].name, "OutdatedCursor");
            assert_eq!(errors.as_ref().expect("errors")[0].name, "FutureCursor");
        }
        other => panic!("unexpected {:?}", other),
    }
}

#[test]
fn absent_fields_are_written_as_null() {
    let doc = parse_lexicon_doc(r#"{"lexicon": 1, "id": "a.b", "defs": {"main": {"type": "token"}}}"#)
        .expect("the document parses");
    let text = to_value(&encode_doc(&doc)).to_string();
    assert_eq!(
        text,
        r#"{"defs":{"main":{"description":null,"type":"token"}},"description":null,"id":"a.b","lexicon":1,"revision":null}"#
    );
}

#[test]
fn tag_in_capitals_is_written_in_lower_case() {
    let doc = parse_lexicon_doc(r#"{"lexicon": 1, "id": "a.b", "defs": {"main": {"type": "BLOB"}}}"#)
        .expect("the document parses");
    let written = encode_doc(&doc);
    assert_eq!(decode_doc(&written).expect("reads back"), doc);
    let text = to_value(&written).to_string();
    assert!(text.contains(r#""type":"blob""#));
}

#[test]
fn document_is_read_from_a_tree_written_by_hand() {
    let s = |t: &str| t.to_string();
    let tree = Json::Obj(vec![
        (s("id"), Json::Str(s("a.b"))),
        (s("lexicon"), Json::Int(1)),
        (s("ignored"), Json::Arr(vec![Json::Null])),
        (
            s("defs"),
            Json::Obj(vec![
                (s("zeta"), Json::Obj(vec![(s("type"), Json::Str(s("token")))])),
                (s("alpha"), Json::Obj(vec![(s("type"), Json::Str(s("unknown")))])),
            ]),
        ),
    ]);
    let doc = decode_doc(&tree).expect("a document");
    let names: Vec<&str> = doc.defs.iter().map(|d| d.name.as_str()).collect();
    assert_eq!(names, vec!["zeta", "alpha"]);
    assert!(matches!(doc.defs[1].value, LexUserType::Unknown(LexPrimitive::Unknown(_))));
}

#[test]
fn key_given_twice_is_refused() {
    let s = |t: &str| t.to_string();
    let token = || Json::Obj(vec![(s("type"), Json::Str(s("token")))]);
    let tree = Json::Obj(vec![
        (s("lexicon"), Json::Int(1)),
        (s("id"), Json::Str(s("a.b"))),
        (s("defs"), Json::Obj(vec![(s("x"), token()), (s("y"), token()), (s("x"), token())])),
    ]);
    let e = decode_doc(&tree).expect_err("x stands twice");
    assert_eq!(e.kind, atproto_lexicon::ParseErrorKind::ShapeMismatch);
    assert_eq!(
        e.path,
        vec![atproto_lexicon::PathStep::Key(s("defs")), atproto_lexicon::PathStep::Key(s("x"))]
    );
}

#[test]
fn large_numbers_keep_their_text() {
    let j = parse_json("[9223372036854775807, 9223372036854775808, -1, 1e3]").expect("valid JSON");
    match j {
        Json::Arr(items) => {
            assert!(matches!(items[0], Json::Int(i64::MAX)));
            assert!(matches!(&items[1], Json::Real(t) if t == "9223372036854775808"));
            assert!(matches!(items[2], Json::Int(-1)));
            assert!(matches!(&items[3], Json::Real(t) if t == "1000.0"));
        }
        other => panic!("not an array: {:?}", other),
    }
}

#[test]
fn tag_decides_where_fields_overlap() {
    // The fields are those of a string; the tag says integer.
    let doc = parse_lexicon_doc(
        r#"{"lexicon": 1, "id": "a.b", "defs": {"main": {"type": "object", "properties": {"p": {"type": "integer", "minLength": 5, "format": "uri", "default": 7}}}}}"#,
    )
    .expect("the document parses");
    match &doc.defs[0].value {
        LexUserType::Object(atproto_lexicon::LexObject::Object { properties, .. }) => {
            match &properties.as_ref().expect("properties")[0].value {
                atproto_lexicon::LexProperty::Primitive(LexPrimitive::Integer(
                    atproto_lexicon::LexInteger::Integer { default, .. },
                )) => assert_eq!(*default, Some(7)),
                other => panic!("unexpected {:?}", other),
            }
        }
        other => panic!("unexpected {:?}", other),
    }
    // An array among properties holds any item; among parameters only primitives.
    let e = parse_lexicon_doc(
        r#"{"lexicon": 1, "id": "a.b", "defs": {"main": {"type": "query", "parameters": {"type": "params", "properties": {"p": {"type": "array", "items": {"type": "blob"}}}}}}}"#,
    )
    .expect_err("a blob is no primitive");
    assert_eq!(e.kind, atproto_lexicon::ParseErrorKind::UnknownType);
    // No array of arrays.
    let e = parse_lexicon_doc(
        r#"{"lexicon": 1, "id": "a.b", "defs": {"main": {"type": "array", "items": {"type": "array", "items": {"type": "boolean"}}}}}"#,
    )
    .expect_err("an array is no item");
    assert_eq!(e.kind, atproto_lexicon::ParseErrorKind::UnknownType);
}
