use atproto_lexicon::generate::{generate, make_part_identifier, GenErrorKind, PartKind};
use atproto_lexicon::ir::{IrItem, IrNode, IrType, LeafKind, Literal, Presence};
use atproto_lexicon::json::{parse_json, Json};
use atproto_lexicon::mapper::{map_node, MapError};
use atproto_lexicon::names::{is_valid_nsid, make_field_identifier, make_identifier};
use atproto_lexicon::pipeline::{compile, parse_all, register_all, CompileError, Source};
use atproto_lexicon::reader::{ParseErrorKind, PathStep};
use atproto_lexicon::refs::parse_ref;
use atproto_lexicon::registry::{Registry, SealedRegistry};
use atproto_lexicon::resolve::{resolve, NodeId, ResolveErrorKind};
use atproto_lexicon::{parse_lexicon_doc, LexPrimitive, LexProperty, LexUserType, LexiconDoc};

fn doc(text: &str) -> LexiconDoc {
    parse_lexicon_doc(text).expect("the document parses")
}

fn corpus(texts: &[&str]) -> SealedRegistry {
    let mut registry = Registry::new();
    for t in texts {
        registry.register(doc(t)).expect("no identifier twice");
    }
    registry.seal()
}

const PROFILE: &str = r##"{
  "lexicon": 1,
  "id": "com.example.profile",
  "description": "A profile.",
  "defs": {
    "main": {
      "type": "record",
      "key": "self",
      "record": {
        "type": "object",
        "required": ["name"],
        "nullable": ["bio"],
        "properties": {
          "name": {"type": "string", "minLength": 1, "maxLength": 64},
          "bio": {"type": "string", "maxGraphemes": 256},
          "avatar": {"type": "blob", "accept": ["image/png"], "maxSize": 1000000},
          "links": {"type": "array", "items": {"type": "ref", "ref": "#link"}, "maxLength": 8},
          "pinned": {"type": "union", "refs": ["#link", "com.example.post"], "closed": true}
        }
      }
    },
    "link": {
      "type": "object",
      "properties": {"uri": {"type": "string", "format": "uri"}}
    }
  }
}"##;

const POST: &str = r##"{
  "lexicon": 1,
  "id": "com.example.post",
  "defs": {
    "main": {
      "type": "object",
      "required": ["text", "author"],
      "properties": {
        "text": {"type": "string"},
        "author": {"type": "ref", "ref": "com.example.profile"},
        "likes": {"type": "integer", "minimum": 0}
      }
    }
  }
}"##;

#[test]
fn json_text_is_read_into_a_tree() {
    let j = parse_json(r#"{"b": [1, 2.5, "x", null, true], "a": -3}"#).expect("valid JSON");
    match j {
        Json::Obj(entries) => {
            assert_eq!(entries.len(), 2);
            assert_eq!(entries[0].0, "a");
            assert!(matches!(entries[0].1, Json::Int(-3)));
            assert_eq!(entries[1].0, "b");
            match &entries[1].1 {
                Json::Arr(items) => {
                    assert_eq!(items.len(), 5);
                    assert!(matches!(items[0], Json::Int(1)));
                    assert!(matches!(&items[1], Json::Real(t) if t == "2.5"));
                    assert!(matches!(&items[2], Json::Str(t) if t == "x"));
                    assert!(matches!(items[3], Json::Null));
                    assert!(matches!(items[4], Json::Bool(true)));
                }
                other => panic!("not an array: {:?}", other),
            }
        }
        other => panic!("not an object: {:?}", other),
    }
}

#[test]
fn json_syntax_error_has_its_place() {
    let e = parse_json("{\n  \"a\": ]").expect_err("not JSON");
    assert_eq!(e.line, 2);
    assert_eq!(e.column, 8);
}

#[test]
fn parses_a_document() {
    let d = doc(PROFILE);
    assert_eq!(d.lexicon, 1);
    assert_eq!(d.id, "com.example.profile");
    assert_eq!(d.description.as_deref(), Some("A profile."));
    assert_eq!(d.revision, None);
    assert_eq!(d.defs.len(), 2);
    let names: Vec<&str> = d.defs.iter().map(|n| n.name.as_str()).collect();
    assert_eq!(names, vec!["link", "main"]);
    assert!(matches!(d.defs[0].value, LexUserType::Object(_)));
    assert!(matches!(d.defs[1].value, LexUserType::Record(_)));
}

#[test]
fn tag_is_matched_without_regard_to_case() {
    let d = doc(r#"{"lexicon": 1, "id": "a.b", "defs": {"main": {"type": "ToKeN"}}}"#);
    assert!(matches!(d.defs[0].value, LexUserType::Token(_)));
}

#[test]
fn primitive_definition_takes_the_variant_of_its_tag() {
    let d = doc(r#"{"lexicon": 1, "id": "a.b", "defs": {"main": {"type": "integer", "minimum": 3}}}"#);
    match &d.defs[0].value {
        LexUserType::Integer(LexPrimitive::Integer(_)) => {}
        other => panic!("unexpected {:?}", other),
    }
}

#[test]
fn syntax_error_is_reported() {
    let e = parse_lexicon_doc("{").expect_err("not JSON");
    assert_eq!(e.kind, ParseErrorKind::Syntax);
    assert!(e.path.is_empty());
    assert!(e.position.is_some());
}

#[test]
fn unknown_type_is_reported() {
    let e = parse_lexicon_doc(r#"{"lexicon": 1, "id": "a.b", "defs": {"main": {"type": "tuple"}}}"#)
        .expect_err("unknown tag");
    assert_eq!(e.kind, ParseErrorKind::UnknownType);
    assert_eq!(
        e.path,
        vec![
            PathStep::Key("defs".to_string()),
            PathStep::Key("main".to_string()),
            PathStep::Key("type".to_string())
        ]
    );
}

#[test]
fn missing_field_is_reported() {
    let e = parse_lexicon_doc(r#"{"lexicon": 1, "defs": {}}"#).expect_err("no id");
    assert_eq!(e.kind, ParseErrorKind::MissingField);
    assert_eq!(e.path, vec![PathStep::Key("id".to_string())]);
    let e = parse_lexicon_doc(
        r#"{"lexicon": 1, "id": "a.b", "defs": {"main": {"type": "object", "properties": {"p": {"type": "union"}}}}}"#,
    )
    .expect_err("union without refs");
    assert_eq!(e.kind, ParseErrorKind::MissingField);
    assert_eq!(
        e.path,
        vec![
            PathStep::Key("defs".to_string()),
            PathStep::Key("main".to_string()),
            PathStep::Key("properties".to_string()),
            PathStep::Key("p".to_string()),
            PathStep::Key("refs".to_string())
        ]
    );
}

#[test]
fn shape_mismatch_is_reported() {
    let e = parse_lexicon_doc(
        r#"{"lexicon": 1, "id": "a.b", "defs": {"main": {"type": "integer", "minimum": "low"}}}"#,
    )
    .expect_err("a text where a number belongs");
    assert_eq!(e.kind, ParseErrorKind::ShapeMismatch);
    assert_eq!(
        e.path,
        vec![
            PathStep::Key("defs".to_string()),
            PathStep::Key("main".to_string()),
            PathStep::Key("minimum".to_string())
        ]
    );
    let e = parse_lexicon_doc(r#"{"lexicon": 1, "id": "a.b", "defs": {"main": {"type": "bytes", "const": 1}}}"#)
        .expect_err("a number where a text belongs");
    assert_eq!(e.kind, ParseErrorKind::ShapeMismatch);
    assert_eq!(e.path.last(), Some(&PathStep::Key("const".to_string())));
    let e = parse_lexicon_doc(
        r#"{"lexicon": 1, "id": "a.b", "defs": {"main": {"type": "string", "enum": ["a", 1]}}}"#,
    )
    .expect_err("a number among texts");
    assert_eq!(e.kind, ParseErrorKind::ShapeMismatch);
    assert_eq!(e.path.last(), Some(&PathStep::Index(1)));
}

#[test]
fn version_and_identifier_are_checked() {
    let e = parse_lexicon_doc(r#"{"lexicon": 2, "id": "a.b", "defs": {}}"#).expect_err("version 2");
    assert_eq!(e.kind, ParseErrorKind::ShapeMismatch);
    assert_eq!(e.path, vec![PathStep::Key("lexicon".to_string())]);
    let e = parse_lexicon_doc(r#"{"lexicon": 1, "id": ".a.b", "defs": {}}"#).expect_err("leading dot");
    assert_eq!(e.kind, ParseErrorKind::ShapeMismatch);
    assert_eq!(e.path, vec![PathStep::Key("id".to_string())]);
}

#[test]
fn required_name_must_be_a_property() {
    let e = parse_lexicon_doc(
        r#"{"lexicon": 1, "id": "a.b", "defs": {"main": {"type": "object", "required": ["x"], "properties": {"y": {"type": "boolean"}}}}}"#,
    )
    .expect_err("x is no property");
    assert_eq!(e.kind, ParseErrorKind::ShapeMismatch);
    assert_eq!(e.path.last(), Some(&PathStep::Key("required".to_string())));
}

#[test]
fn nsid_syntax() {
    assert!(is_valid_nsid("com.example.foo"));
    assert!(is_valid_nsid("a.b"));
    assert!(!is_valid_nsid("foo"));
    assert!(!is_valid_nsid("."));
    assert!(!is_valid_nsid(""));
    assert!(!is_valid_nsid(".foo"));
    assert!(!is_valid_nsid("foo."));
    assert!(!is_valid_nsid("foo..bar"));
}

#[test]
fn reference_syntax() {
    let t = parse_ref("#link").expect("local");
    assert_eq!(t.nsid, None);
    assert_eq!(t.name, "link");
    let t = parse_ref("com.example.post").expect("bare");
    assert_eq!(t.nsid.as_deref(), Some("com.example.post"));
    assert_eq!(t.name, "main");
    let t = parse_ref("com.example.post#reply").expect("full");
    assert_eq!(t.nsid.as_deref(), Some("com.example.post"));
    assert_eq!(t.name, "reply");
    // A document identifier holds a dot: a bare word points nowhere.
    assert!(parse_ref("post").is_none());
    assert!(parse_ref("post#reply").is_none());
    assert!(parse_ref("").is_none());
    assert!(parse_ref("#").is_none());
    assert!(parse_ref("a.b#").is_none());
    assert!(parse_ref("a#b#c").is_none());
    assert!(parse_ref(".a#b").is_none());
}

#[test]
fn registry_rejects_a_second_document_of_one_identifier() {
    let mut registry = Registry::new();
    assert!(registry.register(doc(POST)).is_ok());
    let e = registry.register(doc(POST)).expect_err("twice");
    assert_eq!(e.nsid, "com.example.post");
    assert_eq!(registry.all().len(), 1);
    assert!(registry.lookup("com.example.post").is_some());
    assert!(registry.lookup("com.example.profile").is_none());
    assert!(registry.register(doc(PROFILE)).is_ok());
    let ids: Vec<&str> = registry.all().iter().map(|d| d.id.as_str()).collect();
    assert_eq!(ids, vec!["com.example.post", "com.example.profile"]);
}

#[test]
fn resolves_a_corpus() {
    let registry = corpus(&[PROFILE, POST]);
    let graph = resolve(&registry).expect("resolves");
    assert_eq!(
        graph.nodes(),
        &vec![NodeId { doc: 0, def: 0 }, NodeId { doc: 0, def: 1 }, NodeId { doc: 1, def: 0 }]
    );
    assert_eq!(graph.offsets(), &vec![0, 2, 3]);
    let edges: Vec<(usize, usize, bool)> = graph.edges().iter().map(|e| (e.from, e.to, e.boundary)).collect();
    // profile#main: links -> #link (array), pinned -> #link, post (union); post#main: author -> profile
    assert_eq!(edges, vec![(1, 0, true), (1, 0, true), (1, 2, true), (2, 1, false)]);
}

#[test]
fn self_contained_corpus_never_dangles() {
    let registry = corpus(&[PROFILE, POST]);
    assert!(resolve(&registry).is_ok());
}

#[test]
fn dangling_reference_is_reported() {
    let registry = corpus(&[PROFILE]);
    let e = resolve(&registry).expect_err("post is not registered");
    assert_eq!(e.kind, ResolveErrorKind::DanglingRef);
    assert_eq!(e.node, NodeId { doc: 0, def: 1 });
    assert_eq!(e.reference.as_deref(), Some("com.example.post"));
    let registry = corpus(&[
        r##"{"lexicon": 1, "id": "a.b", "defs": {"main": {"type": "array", "items": {"type": "ref", "ref": "#nope"}}}}"##,
    ]);
    let e = resolve(&registry).expect_err("no such definition");
    assert_eq!(e.kind, ResolveErrorKind::DanglingRef);
}

#[test]
fn ill_formed_reference_is_reported() {
    let registry = corpus(&[
        r##"{"lexicon": 1, "id": "a.b", "defs": {"main": {"type": "array", "items": {"type": "ref", "ref": "a#b#c"}}}}"##,
    ]);
    let e = resolve(&registry).expect_err("two hashes");
    assert_eq!(e.kind, ResolveErrorKind::InvalidRefSyntax);
    assert_eq!(e.node, NodeId { doc: 0, def: 0 });
    assert_eq!(e.reference.as_deref(), Some("a#b#c"));
}

#[test]
fn object_that_holds_itself_is_rejected() {
    let registry = corpus(&[
        r##"{"lexicon": 1, "id": "a.b", "defs": {"main": {"type": "object", "properties": {"me": {"type": "ref", "ref": "#main"}}}}}"##,
    ]);
    let e = resolve(&registry).expect_err("endless nesting");
    assert_eq!(e.kind, ResolveErrorKind::CyclicTypeExpansion);
    assert_eq!(e.node, NodeId { doc: 0, def: 0 });
    assert_eq!(e.reference, None);
}

#[test]
fn object_that_holds_itself_in_an_array_resolves() {
    let registry = corpus(&[
        r##"{"lexicon": 1, "id": "a.b", "defs": {"main": {"type": "object", "properties": {"me": {"type": "array", "items": {"type": "ref", "ref": "#main"}}}}}}"##,
    ]);
    let graph = resolve(&registry).expect("an array is a boundary");
    assert_eq!(graph.edges().len(), 1);
    assert!(graph.edges()[0].boundary);
}

#[test]
fn object_that_holds_itself_as_nullable_resolves() {
    let registry = corpus(&[
        r##"{"lexicon": 1, "id": "a.b", "defs": {"main": {"type": "object", "nullable": ["me"], "properties": {"me": {"type": "ref", "ref": "#main"}}}}}"##,
    ]);
    assert!(resolve(&registry).is_ok());
}

#[test]
fn mutual_nesting_across_documents_is_rejected() {
    let a = r##"{"lexicon": 1, "id": "x.a", "defs": {"main": {"type": "object", "properties": {"b": {"type": "ref", "ref": "x.b"}}}}}"##;
    let b = r##"{"lexicon": 1, "id": "x.b", "defs": {"main": {"type": "object", "properties": {"a": {"type": "ref", "ref": "x.a#main"}}}}}"##;
    let e = resolve(&corpus(&[a, b])).expect_err("a holds b holds a");
    assert_eq!(e.kind, ResolveErrorKind::CyclicTypeExpansion);
    assert_eq!(e.node, NodeId { doc: 0, def: 0 });
    // A definition that only leads into the cycle has no finite form either.
    let lead = r##"{"lexicon": 1, "id": "x.0", "defs": {"main": {"type": "object", "properties": {"a": {"type": "ref", "ref": "x.a"}}}, "fine": {"type": "token"}}}"##;
    let e = resolve(&corpus(&[lead, a, b])).expect_err("x.0 holds a");
    assert_eq!(e.kind, ResolveErrorKind::CyclicTypeExpansion);
    assert_eq!(e.node, NodeId { doc: 0, def: 1 });
    let c = r##"{"lexicon": 1, "id": "x.b", "defs": {"main": {"type": "object", "properties": {"a": {"type": "union", "refs": ["x.a"]}}}}}"##;
    assert!(resolve(&corpus(&[a, c])).is_ok());
}

#[test]
fn presence_is_classified() {
    let registry = corpus(&[
        r##"{"lexicon": 1, "id": "a.b", "defs": {"main": {"type": "object", "required": ["a"], "nullable": ["b"], "properties": {"a": {"type": "string"}, "b": {"type": "string"}, "c": {"type": "string"}}}}}"##,
    ]);
    match map_node(&registry, NodeId { doc: 0, def: 0 }).expect("maps") {
        IrNode::Object(fields) => {
            let got: Vec<(&str, Presence)> = fields.iter().map(|f| (f.name.as_str(), f.presence)).collect();
            assert_eq!(
                got,
                vec![
                    ("a", Presence::MandatoryNonNull),
                    ("b", Presence::OptionalNullable),
                    ("c", Presence::OptionalNonNull)
                ]
            );
        }
        other => panic!("unexpected {:?}", other),
    }
    let registry = corpus(&[
        r##"{"lexicon": 1, "id": "a.b", "defs": {"main": {"type": "object", "required": ["a"], "nullable": ["a"], "properties": {"a": {"type": "string"}}}}}"##,
    ]);
    match map_node(&registry, NodeId { doc: 0, def: 0 }).expect("maps") {
        IrNode::Object(fields) => assert_eq!(fields[0].presence, Presence::MandatoryNullable),
        other => panic!("unexpected {:?}", other),
    }
}

#[test]
fn inverted_length_range_is_rejected() {
    let registry = corpus(&[
        r##"{"lexicon": 1, "id": "a.b", "defs": {"main": {"type": "object", "properties": {"s": {"type": "string", "minLength": 1, "maxLength": 0}}}}}"##,
    ]);
    assert_eq!(map_node(&registry, NodeId { doc: 0, def: 0 }), Err(MapError::InvalidConstraintRange));
    let graph = resolve(&registry).expect("no references");
    let g = generate(&registry, &graph);
    assert!(g.artifacts.is_empty());
    assert_eq!(g.failed.len(), 1);
    assert_eq!(g.failed[0].doc, 0);
    assert_eq!(g.failed[0].nsid, "a.b");
    assert_eq!(g.failed[0].error.kind, GenErrorKind::InvalidConstraintRange);
    assert_eq!(g.failed[0].error.first, NodeId { doc: 0, def: 0 });
    assert_eq!(g.failed[0].error.second, None);
}

#[test]
fn a_failed_document_does_not_stop_the_others() {
    let bad = r##"{"lexicon": 1, "id": "a.bad", "defs": {"fine": {"type": "token"}, "main": {"type": "integer", "minimum": 2, "maximum": 1}, "worse": {"type": "string", "minLength": 2, "maxLength": 1}}}"##;
    let compiled = compile(vec![doc(PROFILE), doc(bad), doc(POST)]).expect("registers and resolves");
    let g = &compiled.generation;
    let generated: Vec<(usize, &str)> = g.artifacts.iter().map(|a| (a.doc, a.nsid.as_str())).collect();
    assert_eq!(generated, vec![(0, "com.example.profile"), (2, "com.example.post")]);
    assert_eq!(g.failed.len(), 1);
    assert_eq!((g.failed[0].doc, g.failed[0].nsid.as_str()), (1, "a.bad"));
    // The first definition at fault is reported: `main` stands before `worse`.
    assert_eq!(g.failed[0].error.kind, GenErrorKind::InvalidConstraintRange);
    assert_eq!(g.failed[0].error.first, NodeId { doc: 1, def: 1 });
    assert_eq!(g.names.len(), 6);
}

#[test]
fn inverted_ranges_of_other_kinds_are_rejected() {
    for def in [
        r##"{"type": "integer", "minimum": 5, "maximum": 4}"##,
        r##"{"type": "string", "minGraphemes": 2, "maxGraphemes": 1}"##,
        r##"{"type": "array", "items": {"type": "boolean"}, "minLength": 3, "maxLength": 2}"##,
    ] {
        let text = format!(r##"{{"lexicon": 1, "id": "a.b", "defs": {{"main": {}}}}}"##, def);
        let registry = corpus(&[&text]);
        assert_eq!(map_node(&registry, NodeId { doc: 0, def: 0 }), Err(MapError::InvalidConstraintRange));
    }
    let registry = corpus(&[r##"{"lexicon": 1, "id": "a.b", "defs": {"main": {"type": "integer", "minimum": 4, "maximum": 4}}}"##]);
    match map_node(&registry, NodeId { doc: 0, def: 0 }).expect("equal bounds are consistent") {
        IrNode::Leaf(leaf) => {
            assert_eq!(leaf.kind, LeafKind::Integer);
            assert_eq!(leaf.constraints.value.min, Some(4));
            assert_eq!(leaf.constraints.value.max, Some(4));
        }
        other => panic!("unexpected {:?}", other),
    }
}

#[test]
fn closed_union_admits_its_members_only() {
    let text = |closed: &str| {
        format!(
            r##"{{"lexicon": 1, "id": "a.b", "defs": {{"main": {{"type": "object", "properties": {{"u": {{"type": "union", "refs": ["#x", "#y"], "closed": {}}}}}}}, "x": {{"type": "token"}}, "y": {{"type": "token"}}, "z": {{"type": "token"}}}}}}"##,
            closed
        )
    };
    let union_of = |closed: &str| {
        let registry = corpus(&[&text(closed)]);
        match map_node(&registry, NodeId { doc: 0, def: 0 }).expect("maps") {
            IrNode::Object(fields) => match &fields[0].ty {
                IrType::Item(IrItem::Union(u)) => u.clone(),
                other => panic!("unexpected {:?}", other),
            },
            other => panic!("unexpected {:?}", other),
        }
    };
    // The definitions in order: main, x, y, z.
    let closed = union_of("true");
    assert!(closed.closed);
    assert_eq!(closed.members, vec![NodeId { doc: 0, def: 1 }, NodeId { doc: 0, def: 2 }]);
    assert!(closed.admits(NodeId { doc: 0, def: 1 }));
    assert!(closed.admits(NodeId { doc: 0, def: 2 }));
    assert!(!closed.admits(NodeId { doc: 0, def: 3 }));
    let open = union_of("false");
    assert!(!open.closed);
    assert!(open.admits(NodeId { doc: 0, def: 3 }));
}

#[test]
fn identifiers_are_derived_from_identifier_and_name() {
    assert_eq!(make_identifier("com.example.profile", "main"), "com_example_profile");
    assert_eq!(make_identifier("com.example.profile", "link"), "com_example_profile_link");
    assert_eq!(make_identifier("com.my-app.thing", "a-b"), "com_my_app_thing_a_b");
    assert_eq!(make_identifier("type", "main"), "type_");
    assert_eq!(make_identifier("a", "type"), "a_type");
    assert_eq!(make_field_identifier("ref"), "ref_");
    assert_eq!(make_field_identifier("enum"), "enum_");
    assert_eq!(make_field_identifier("union"), "union_");
    assert_eq!(make_field_identifier("createdAt"), "createdAt");
}

#[test]
fn generates_one_declaration_for_each_definition() {
    let registry = corpus(&[PROFILE, POST]);
    let graph = resolve(&registry).expect("resolves");
    let g = generate(&registry, &graph);
    assert_eq!(g.names, vec!["com_example_profile_link", "com_example_profile", "com_example_post"]);
    assert!(g.failed.is_empty());
    assert_eq!(g.artifacts.len(), 2);
    assert!(g.artifacts[0].declarations[0].parts.is_empty());
    assert_eq!(g.artifacts[0].nsid, "com.example.profile");
    let ids: Vec<&str> = g.artifacts[0].declarations.iter().map(|d| d.identifier.as_str()).collect();
    assert_eq!(ids, vec!["com_example_profile_link", "com_example_profile"]);
    assert!(matches!(g.artifacts[0].declarations[1].body, IrNode::Record(_)));
    assert_eq!(g.artifacts[1].declarations[0].node, NodeId { doc: 1, def: 0 });
}

#[test]
fn colliding_identifiers_are_reported() {
    let a = r##"{"lexicon": 1, "id": "com.example.foo", "defs": {"bar": {"type": "token"}}}"##;
    let b = r##"{"lexicon": 1, "id": "com.example.foo.bar", "defs": {"main": {"type": "token"}}}"##;
    let registry = corpus(&[a, b]);
    let graph = resolve(&registry).expect("no references");
    let g = generate(&registry, &graph);
    // Both are com_example_foo_bar: neither is declared, each names the other.
    assert!(g.artifacts.is_empty());
    assert_eq!(g.failed.len(), 2);
    assert_eq!(g.failed[0].error.kind, GenErrorKind::IdentifierCollision);
    assert_eq!(g.failed[0].error.first, NodeId { doc: 0, def: 0 });
    assert_eq!(g.failed[0].error.second, Some(NodeId { doc: 1, def: 0 }));
    assert_eq!(g.failed[1].error.kind, GenErrorKind::IdentifierCollision);
    assert_eq!(g.failed[1].error.first, NodeId { doc: 1, def: 0 });
    assert_eq!(g.failed[1].error.second, Some(NodeId { doc: 0, def: 0 }));
}

#[test]
fn parts_of_a_method_are_named_and_claimed() {
    assert_eq!(make_part_identifier("com_example_get", PartKind::Params), "com_example_get_params");
    assert_eq!(make_part_identifier("com_example_get", PartKind::Input), "com_example_get_input");
    assert_eq!(make_part_identifier("com_example_get", PartKind::Output), "com_example_get_output");
    assert_eq!(make_part_identifier("com_example_get", PartKind::Message), "com_example_get_message");
    assert_eq!(make_part_identifier("com_example_get", PartKind::Error), "com_example_get_error");
    let method = r##"{"lexicon": 1, "id": "com.example.get", "defs": {"main": {"type": "query"}, "other": {"type": "token"}}}"##;
    let registry = corpus(&[method]);
    let graph = resolve(&registry).expect("no references");
    let g = generate(&registry, &graph);
    assert!(g.failed.is_empty());
    let main = &g.artifacts[0].declarations[0];
    assert_eq!(main.identifier, "com_example_get");
    let parts: Vec<(PartKind, &str)> = main.parts.iter().map(|p| (p.kind, p.identifier.as_str())).collect();
    assert_eq!(
        parts,
        vec![
            (PartKind::Params, "com_example_get_params"),
            (PartKind::Output, "com_example_get_output"),
            (PartKind::Error, "com_example_get_error")
        ]
    );
    // A definition that takes the identifier of a part clashes with the method.
    let clash = r##"{"lexicon": 1, "id": "com.example.get", "defs": {"main": {"type": "procedure"}, "input": {"type": "token"}}}"##;
    let registry = corpus(&[clash]);
    let graph = resolve(&registry).expect("no references");
    let g = generate(&registry, &graph);
    assert!(g.artifacts.is_empty());
    assert_eq!(g.failed.len(), 1);
    assert_eq!(g.failed[0].error.kind, GenErrorKind::IdentifierCollision);
    // `input` stands before `main`: it is the first definition at fault.
    assert_eq!(g.failed[0].error.first, NodeId { doc: 0, def: 0 });
    assert_eq!(g.failed[0].error.second, Some(NodeId { doc: 0, def: 1 }));
}

#[test]
fn identifier_starts_as_an_identifier_must() {
    assert_eq!(make_identifier("9gag.example", "main"), "_9gag_example");
    assert_eq!(make_field_identifier("2fa"), "_2fa");
    assert_eq!(make_field_identifier(""), "_");
    assert_eq!(make_field_identifier("_"), "__");
    assert_eq!(make_field_identifier("-"), "__");
    assert_eq!(make_field_identifier("_x"), "_x");
}

#[test]
fn bytes_and_links_are_definitions() {
    let d = doc(r#"{"lexicon": 1, "id": "com.example.foo", "defs": {"main": {"type": "bytes", "description": "raw", "default": "AA", "const": "BB"}, "link": {"type": "cid-link"}}}"#);
    match &d.defs[1].value {
        LexUserType::Bytes(atproto_lexicon::LexIpldType::Bytes(atproto_lexicon::LexBytes::Bytes {
            description,
            default,
            const_value,
        })) => {
            assert_eq!(description.as_deref(), Some("raw"));
            assert_eq!(default.as_deref(), Some("AA"));
            assert_eq!(const_value.as_deref(), Some("BB"));
        }
        other => panic!("unexpected {:?}", other),
    }
    assert!(matches!(&d.defs[0].value, LexUserType::CidLink(atproto_lexicon::LexIpldType::CidLink(_))));
    assert_eq!(atproto_lexicon::decode_doc(&atproto_lexicon::encode_doc(&d)).expect("reads back"), d);
    let registry = corpus(&[r#"{"lexicon": 1, "id": "com.example.foo", "defs": {"main": {"type": "bytes", "const": "BB"}, "link": {"type": "cid-link"}}}"#]);
    match map_node(&registry, NodeId { doc: 0, def: 1 }).expect("maps") {
        IrNode::Leaf(leaf) => {
            assert_eq!(leaf.kind, LeafKind::Bytes);
            assert_eq!(leaf.constraints.fixed, Some(Literal::Text("BB".to_string())));
        }
        other => panic!("unexpected {:?}", other),
    }
    match map_node(&registry, NodeId { doc: 0, def: 0 }).expect("maps") {
        IrNode::Leaf(leaf) => assert_eq!(leaf.kind, LeafKind::CidLink),
        other => panic!("unexpected {:?}", other),
    }
}

#[test]
fn property_kinds_are_kept() {
    let d = doc(PROFILE);
    match &d.defs[1].value {
        LexUserType::Record(atproto_lexicon::LexRecord::Record { key, record, .. }) => {
            assert_eq!(key.as_deref(), Some("self"));
            match record {
                atproto_lexicon::LexObject::Object { properties, required, nullable, .. } => {
                    assert_eq!(required.as_ref().expect("required"), &vec!["name".to_string()]);
                    assert_eq!(nullable.as_ref().expect("nullable"), &vec!["bio".to_string()]);
                    let props = properties.as_ref().expect("properties");
                    let names: Vec<&str> = props.iter().map(|p| p.name.as_str()).collect();
                    assert_eq!(names, vec!["avatar", "bio", "links", "name", "pinned"]);
                    assert!(matches!(props[0].value, LexProperty::Blob(_)));
                    assert!(matches!(props[2].value, LexProperty::Array(_)));
                    assert!(matches!(props[4].value, LexProperty::RefVariant(_)));
                }
            }
        }
        other => panic!("unexpected {:?}", other),
    }
}

#[test]
fn batch_keeps_every_source() {
    let sources = vec![
        Source { label: "profile.json".to_string(), text: PROFILE.to_string() },
        Source { label: "broken.json".to_string(), text: "{".to_string() },
        Source { label: "post.json".to_string(), text: POST.to_string() },
        Source { label: "empty.json".to_string(), text: "{}".to_string() },
    ];
    let report = parse_all(&sources);
    let parsed: Vec<(&str, &str)> = report.parsed.iter().map(|p| (p.label.as_str(), p.doc.id.as_str())).collect();
    assert_eq!(parsed, vec![("profile.json", "com.example.profile"), ("post.json", "com.example.post")]);
    let failed: Vec<(&str, ParseErrorKind)> = report.failed.iter().map(|f| (f.label.as_str(), f.error.kind)).collect();
    assert_eq!(failed, vec![("broken.json", ParseErrorKind::Syntax), ("empty.json", ParseErrorKind::MissingField)]);
}

#[test]
fn run_stops_at_the_first_failure() {
    let registry = register_all(vec![doc(PROFILE), doc(POST)]).expect("two identifiers");
    assert_eq!(registry.all().len(), 2);
    let e = register_all(vec![doc(PROFILE), doc(POST), doc(PROFILE)]).expect_err("profile twice");
    assert_eq!(e.nsid, "com.example.profile");
    match compile(vec![doc(POST), doc(POST)]) {
        Err(CompileError::Duplicate(e)) => assert_eq!(e.nsid, "com.example.post"),
        other => panic!("unexpected {:?}", other.map(|c| c.generation)),
    }
    match compile(vec![doc(POST)]) {
        Err(CompileError::Resolve(e)) => assert_eq!(e.kind, ResolveErrorKind::DanglingRef),
        other => panic!("unexpected {:?}", other.map(|c| c.generation)),
    }
    let a = r##"{"lexicon": 1, "id": "com.example.foo", "defs": {"bar": {"type": "token"}}}"##;
    let b = r##"{"lexicon": 1, "id": "com.example.foo.bar", "defs": {"main": {"type": "token"}}}"##;
    let clashing = compile(vec![doc(a), doc(b)]).expect("registers and resolves");
    assert!(clashing.generation.artifacts.is_empty());
    assert_eq!(clashing.generation.failed[0].error.kind, GenErrorKind::IdentifierCollision);
    let compiled = compile(vec![doc(PROFILE), doc(POST)]).expect("compiles");
    assert_eq!(compiled.registry.all().len(), 2);
    assert_eq!(compiled.graph.nodes().len(), 3);
    assert_eq!(compiled.generation.artifacts.len(), 2);
    assert!(compiled.generation.failed.is_empty());
}

#[test]
fn mapper_reports_a_reference_that_does_not_resolve() {
    let registry = corpus(&[POST]);
    assert_eq!(map_node(&registry, NodeId { doc: 0, def: 0 }), Err(MapError::UnresolvedRef));
}

#[test]
fn document_must_be_an_object() {
    let e = parse_lexicon_doc("[1, 2]").expect_err("an array is no document");
    assert_eq!(e.kind, ParseErrorKind::ShapeMismatch);
    assert!(e.path.is_empty());
    assert_eq!(e.position, None);
    let e = parse_lexicon_doc(r#"{"lexicon": 1, "id": "a.b", "defs": []}"#).expect_err("defs is a map");
    assert_eq!(e.kind, ParseErrorKind::ShapeMismatch);
    assert_eq!(e.path, vec![PathStep::Key("defs".to_string())]);
    let e = parse_lexicon_doc(r#"{"lexicon": 1, "id": "a.b", "defs": {"main": {"description": "no tag"}}}"#)
        .expect_err("a definition has a tag");
    assert_eq!(e.kind, ParseErrorKind::MissingField);
    assert_eq!(e.path.last(), Some(&PathStep::Key("type".to_string())));
}

#[test]
fn lookup_finds_the_document_of_an_identifier() {
    let registry = corpus(&[PROFILE, POST]);
    assert_eq!(registry.lookup("com.example.post").expect("registered").id, "com.example.post");
    assert_eq!(registry.lookup("com.example.profile").expect("registered").defs.len(), 2);
    assert!(registry.lookup("com.example").is_none());
}

#[test]
fn leaves_carry_their_constraints() {
    let registry = corpus(&[PROFILE]);
    match map_node(&registry, NodeId { doc: 0, def: 0 }).expect("link maps") {
        IrNode::Object(fields) => {
            assert_eq!(fields.len(), 1);
            assert_eq!(fields[0].name, "uri");
            match &fields[0].ty {
                IrType::Item(IrItem::Leaf(leaf)) => {
                    assert_eq!(leaf.kind, LeafKind::String);
                    assert_eq!(leaf.format, Some(atproto_lexicon::LexStringFormat::Uri));
                }
                other => panic!("unexpected {:?}", other),
            }
        }
        other => panic!("unexpected {:?}", other),
    }
    let registry = corpus(&[
        r##"{"lexicon": 1, "id": "a.b", "defs": {"main": {"type": "object", "properties": {"s": {"type": "string", "minLength": 1, "maxLength": 9, "minGraphemes": 2, "maxGraphemes": 3, "enum": ["x", "y"], "const": "x", "default": "y"}, "n": {"type": "integer", "enum": [1, 2], "const": 1}}}}}"##,
    ]);
    match map_node(&registry, NodeId { doc: 0, def: 0 }).expect("maps") {
        IrNode::Object(fields) => {
            let leaf = |i: usize| match &fields[i].ty {
                IrType::Item(IrItem::Leaf(leaf)) => leaf.clone(),
                other => panic!("unexpected {:?}", other),
            };
            let n = leaf(0);
            assert_eq!(n.constraints.choices, Some(vec![Literal::Int(1), Literal::Int(2)]));
            assert_eq!(n.constraints.fixed, Some(Literal::Int(1)));
            let s = leaf(1);
            assert_eq!((s.constraints.length.min, s.constraints.length.max), (Some(1), Some(9)));
            assert_eq!((s.constraints.graphemes.min, s.constraints.graphemes.max), (Some(2), Some(3)));
            assert_eq!(s.constraints.value.min, None);
            assert_eq!(
                s.constraints.choices,
                Some(vec![Literal::Text("x".to_string()), Literal::Text("y".to_string())])
            );
            assert_eq!(s.constraints.fixed, Some(Literal::Text("x".to_string())));
            assert_eq!(s.default, Some(Literal::Text("y".to_string())));
        }
        other => panic!("unexpected {:?}", other),
    }
}
