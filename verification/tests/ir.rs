use baml_ir::ast::{AstExpression, AstFieldType, AstIdentifier, FieldArity, TypeValue};
use baml_ir::builder::IntermediateRepr;
use baml_ir::db::{
    AstFunctionArgs, ClassDecl, ClientDecl, EnumDecl, EnumValueDecl, FieldDecl, FunctionDecl,
    ParserDatabase, RetryPolicyDecl, RetryPolicyStrategy, StaticStringAttributes,
    ToStringAttributes, VariantDecl,
};
use baml_ir::ir::{Expression, FieldType, FunctionArgs, LowerError, OracleType};

fn empty_db() -> ParserDatabase {
    ParserDatabase {
        enums: Vec::new(),
        classes: Vec::new(),
        functions: Vec::new(),
        clients: Vec::new(),
        retry_policies: Vec::new(),
    }
}

fn string_field(name: &str, arity: FieldArity) -> FieldDecl {
    FieldDecl {
        name: name.to_string(),
        field_type: AstFieldType::Identifier(arity, AstIdentifier::Primitive(TypeValue::String)),
        attributes: None,
    }
}

fn plain_class(name: &str, fields: Vec<FieldDecl>) -> ClassDecl {
    ClassDecl {
        name: name.to_string(),
        static_fields: fields,
        dynamic_fields: Vec::new(),
        attributes: None,
    }
}

fn plain_enum(name: &str, values: Vec<&str>) -> EnumDecl {
    EnumDecl {
        name: name.to_string(),
        values: values
            .into_iter()
            .map(|v| EnumValueDecl { name: v.to_string(), attributes: None })
            .collect(),
        attributes: None,
    }
}

fn plain_variant(name: &str) -> VariantDecl {
    VariantDecl {
        name: name.to_string(),
        prompt: "prompt".to_string(),
        input_replacers: Vec::new(),
        output_replacers: Vec::new(),
        client: "client".to_string(),
        serializer_attrs: Vec::new(),
        member_overrides: Vec::new(),
    }
}

fn unnamed_string_output() -> AstFunctionArgs {
    AstFunctionArgs::Unnamed(AstFieldType::Identifier(
        FieldArity::Required,
        AstIdentifier::Primitive(TypeValue::String),
    ))
}

fn is_primitive(t: &FieldType, v: TypeValue) -> bool {
    matches!(t, FieldType::Primitive(p) if *p == v)
}

// A flat, order-sensitive rendering of the representation, used to check
// that two builds of one database agree byte for byte.
fn type_fingerprint(t: &FieldType, out: &mut String) {
    match t {
        FieldType::Primitive(p) => out.push_str(&format!("prim:{:?};", p)),
        FieldType::Enum(n) => out.push_str(&format!("enum:{};", n)),
        FieldType::Class(n) => out.push_str(&format!("class:{};", n)),
        FieldType::List(i) => {
            out.push_str("list(");
            type_fingerprint(i, out);
            out.push_str(");");
        }
        FieldType::Dict(k, v) => {
            out.push_str("dict(");
            type_fingerprint(k, out);
            type_fingerprint(v, out);
            out.push_str(");");
        }
        FieldType::Union(ms) => {
            out.push_str("union(");
            for m in ms {
                type_fingerprint(m, out);
            }
            out.push_str(");");
        }
        FieldType::Tuple(ms) => {
            out.push_str("tuple(");
            for m in ms {
                type_fingerprint(m, out);
            }
            out.push_str(");");
        }
        FieldType::Optional(i) => {
            out.push_str("opt(");
            type_fingerprint(i, out);
            out.push_str(");");
        }
    }
}

fn expr_fingerprint(e: &Expression, out: &mut String) {
    match e {
        Expression::Identifier(_) => out.push_str("ident;"),
        Expression::Numeric(n) => out.push_str(&format!("num:{};", n)),
        Expression::String(s) => out.push_str(&format!("str:{};", s)),
        Expression::RawString(s) => out.push_str(&format!("raw:{};", s)),
        Expression::List(es) => {
            out.push_str("list(");
            for x in es {
                expr_fingerprint(x, out);
            }
            out.push_str(");");
        }
        Expression::Dict(kvs) => {
            out.push_str("dict(");
            for (k, v) in kvs {
                expr_fingerprint(k, out);
                expr_fingerprint(v, out);
            }
            out.push_str(");");
        }
    }
}

fn attrs_fingerprint(a: &baml_ir::ir::NodeAttributes, out: &mut String) {
    for i in 0..a.meta_len() {
        let (k, v) = a.meta_at(i);
        out.push_str(&format!("meta:{}=", k));
        expr_fingerprint(v, out);
    }
    for i in 0..a.overrides_len() {
        let key = a.override_key_at(i);
        out.push_str(&format!("ovr:{}/{}(", key.0, key.1));
        for j in 0..a.override_meta_len_at(i) {
            let (k, v) = a.override_meta_at(i, j);
            out.push_str(&format!("{}=", k));
            expr_fingerprint(v, out);
        }
        out.push_str(");");
    }
}

fn repr_fingerprint(ir: &IntermediateRepr) -> String {
    let mut out = String::new();
    for w in ir.walk_enums() {
        out.push_str(&format!("enum:{}(", w.item.elem.name));
        attrs_fingerprint(&w.item.attributes, &mut out);
        for v in &w.item.elem.values {
            out.push_str(&format!("val:{}(", v.elem.0));
            attrs_fingerprint(&v.attributes, &mut out);
            out.push_str(");");
        }
        out.push_str(");");
    }
    for w in ir.walk_classes() {
        out.push_str(&format!("class:{}(", w.item.elem.name));
        attrs_fingerprint(&w.item.attributes, &mut out);
        for f in &w.item.elem.static_fields {
            out.push_str(&format!("field:{}=", f.elem.name));
            type_fingerprint(&f.elem.field_type.elem, &mut out);
            attrs_fingerprint(&f.attributes, &mut out);
        }
        out.push_str(");");
    }
    for w in ir.walk_functions() {
        out.push_str(&format!("fn:{}(", w.item.elem.name));
        match &w.item.elem.inputs {
            FunctionArgs::UnnamedArg(t) => {
                out.push_str("in=");
                type_fingerprint(t, &mut out);
            }
            FunctionArgs::NamedArgList(args) => {
                for (n, t) in args {
                    out.push_str(&format!("arg:{}=", n));
                    type_fingerprint(t, &mut out);
                }
            }
        }
        out.push_str("out=");
        type_fingerprint(&w.item.elem.output.elem, &mut out);
        for im in &w.item.elem.impls {
            out.push_str(&format!("impl:{}:{}:{};", im.elem.name, im.elem.prompt, im.elem.client));
            for i in 0..im.elem.input_replacers_len() {
                let (k, v) = im.elem.input_replacer_at(i);
                out.push_str(&format!("irep:{}={};", k, v));
            }
            for i in 0..im.elem.output_replacers_len() {
                let (k, v) = im.elem.output_replacer_at(i);
                out.push_str(&format!("orep:{}={};", k, v));
            }
        }
        out.push_str(");");
    }
    for w in ir.walk_clients() {
        out.push_str(&format!("client:{}:{}(", w.item.elem.name, w.item.elem.provider));
        for (k, v) in &w.item.elem.options {
            out.push_str(&format!("{}=", k));
            expr_fingerprint(v, &mut out);
        }
        out.push_str(");");
    }
    for w in ir.walk_retry_policies() {
        out.push_str(&format!(
            "retry:{}:{}:{:?}(",
            w.item.elem.name().0,
            w.item.elem.max_retries(),
            w.item.elem.strategy()
        ));
        for (k, v) in w.item.elem.options() {
            out.push_str(&format!("{}=", k));
            expr_fingerprint(v, &mut out);
        }
        out.push_str(");");
    }
    out
}

fn sample_db() -> ParserDatabase {
    let mut db = empty_db();
    db.enums.push(plain_enum("Color", vec!["Red", "Green"]));
    db.classes.push(plain_class(
        "User",
        vec![
            string_field("name", FieldArity::Required),
            string_field("email", FieldArity::Optional),
        ],
    ));
    db.functions.push(FunctionDecl {
        name: "Classify".to_string(),
        input: AstFunctionArgs::Named(vec![(
            "text".to_string(),
            AstFieldType::Identifier(FieldArity::Required, AstIdentifier::Primitive(TypeValue::String)),
        )]),
        output: unnamed_string_output(),
        default_impl: Some("v1".to_string()),
        variants: vec![plain_variant("v1")],
    });
    db.clients.push(ClientDecl {
        name: "gpt".to_string(),
        provider: "openai".to_string(),
        options: vec![(
            "model".to_string(),
            AstExpression::StringValue("gpt-4".to_string()),
        )],
    });
    db.retry_policies.push(RetryPolicyDecl {
        name: "default".to_string(),
        max_retries: 3,
        strategy: RetryPolicyStrategy::ExponentialBackoff,
        options: None,
    });
    db
}

#[test]
fn build_is_deterministic() {
    let db = sample_db();
    let ir1 = IntermediateRepr::from_parser_database(&db).unwrap();
    let ir2 = IntermediateRepr::from_parser_database(&db).unwrap();
    assert_eq!(repr_fingerprint(&ir1), repr_fingerprint(&ir2));
}

#[test]
fn sequences_are_sorted_by_name() {
    let mut db = empty_db();
    db.enums.push(plain_enum("b", vec![]));
    db.enums.push(plain_enum("a", vec![]));
    db.enums.push(plain_enum("c", vec![]));
    db.classes.push(plain_class("zeta", vec![]));
    db.classes.push(plain_class("alpha", vec![]));
    let ir = IntermediateRepr::from_parser_database(&db).unwrap();
    let names: Vec<String> = ir.walk_enums().iter().map(|w| w.item.elem.name.clone()).collect();
    assert_eq!(names, vec!["a", "b", "c"]);
    let classes: Vec<String> =
        ir.walk_classes().iter().map(|w| w.item.elem.name.clone()).collect();
    assert_eq!(classes, vec!["alpha", "zeta"]);
}

#[test]
fn sort_is_stable_for_equal_names() {
    let mut db = empty_db();
    db.enums.push(EnumDecl {
        name: "dup".to_string(),
        values: vec![EnumValueDecl { name: "first".to_string(), attributes: None }],
        attributes: None,
    });
    db.enums.push(EnumDecl {
        name: "dup".to_string(),
        values: vec![EnumValueDecl { name: "second".to_string(), attributes: None }],
        attributes: None,
    });
    let ir = IntermediateRepr::from_parser_database(&db).unwrap();
    let walkers = ir.walk_enums();
    assert_eq!(walkers[0].item.elem.values[0].elem.0, "first");
    assert_eq!(walkers[1].item.elem.values[0].elem.0, "second");
}

#[test]
fn end_to_end_user_class() {
    let mut db = empty_db();
    db.classes.push(plain_class(
        "User",
        vec![
            string_field("name", FieldArity::Required),
            string_field("email", FieldArity::Optional),
        ],
    ));
    let ir = IntermediateRepr::from_parser_database(&db).unwrap();
    let walkers = ir.walk_classes();
    assert_eq!(walkers.len(), 1);
    let class = &walkers[0].item.elem;
    assert_eq!(class.name, "User");
    assert_eq!(class.static_fields.len(), 2);
    assert_eq!(class.static_fields[0].elem.name, "name");
    assert!(is_primitive(&class.static_fields[0].elem.field_type.elem, TypeValue::String));
    assert_eq!(class.static_fields[1].elem.name, "email");
    match &class.static_fields[1].elem.field_type.elem {
        FieldType::Optional(inner) => assert!(is_primitive(inner, TypeValue::String)),
        _ => panic!("optional string expected"),
    }
    assert!(class.dynamic_fields.is_empty());
}

#[test]
fn optional_union_gains_null_member() {
    let t = AstFieldType::Union(
        FieldArity::Optional,
        vec![
            AstFieldType::Identifier(FieldArity::Required, AstIdentifier::Primitive(TypeValue::String)),
            AstFieldType::Identifier(FieldArity::Required, AstIdentifier::Primitive(TypeValue::Int)),
        ],
    );
    let db = empty_db();
    match t.repr(&db).unwrap() {
        FieldType::Union(ms) => {
            assert_eq!(ms.len(), 3);
            assert!(is_primitive(&ms[0], TypeValue::String));
            assert!(is_primitive(&ms[1], TypeValue::Int));
            assert!(is_primitive(&ms[2], TypeValue::Null));
        }
        _ => panic!("union expected"),
    }
}

#[test]
fn optional_tuple_is_wrapped() {
    let t = AstFieldType::Tuple(
        FieldArity::Optional,
        vec![AstFieldType::Identifier(FieldArity::Required, AstIdentifier::Primitive(TypeValue::Bool))],
    );
    let db = empty_db();
    match t.repr(&db).unwrap() {
        FieldType::Optional(inner) => match *inner {
            FieldType::Tuple(ms) => assert_eq!(ms.len(), 1),
            _ => panic!("tuple expected"),
        },
        _ => panic!("optional expected"),
    }
}

#[test]
fn zero_dimension_list_still_wraps_once() {
    let t = AstFieldType::List(
        Box::new(AstFieldType::Identifier(
            FieldArity::Required,
            AstIdentifier::Primitive(TypeValue::Int),
        )),
        0,
    );
    let db = empty_db();
    match t.repr(&db).unwrap() {
        FieldType::List(inner) => assert!(is_primitive(&inner, TypeValue::Int)),
        _ => panic!("list expected"),
    }
}

#[test]
fn three_dimension_list_nests_three_times() {
    let t = AstFieldType::List(
        Box::new(AstFieldType::Identifier(
            FieldArity::Required,
            AstIdentifier::Primitive(TypeValue::Int),
        )),
        3,
    );
    let db = empty_db();
    let mut depth: usize = 0;
    let mut cur = t.repr(&db).unwrap();
    loop {
        match cur {
            FieldType::List(inner) => {
                depth += 1;
                cur = *inner;
            }
            other => {
                assert!(is_primitive(&other, TypeValue::Int));
                break;
            }
        }
    }
    assert_eq!(depth, 3);
}

#[test]
fn local_identifiers_resolve_to_class_and_enum() {
    let mut db = empty_db();
    db.classes.push(plain_class("User", vec![]));
    db.enums.push(plain_enum("Color", vec![]));
    let t = AstFieldType::Identifier(FieldArity::Required, AstIdentifier::Local("User".to_string()));
    match t.repr(&db).unwrap() {
        FieldType::Class(n) => assert_eq!(n, "User"),
        _ => panic!("class reference expected"),
    }
    let t = AstFieldType::Identifier(FieldArity::Required, AstIdentifier::Local("Color".to_string()));
    match t.repr(&db).unwrap() {
        FieldType::Enum(n) => assert_eq!(n, "Color"),
        _ => panic!("enum reference expected"),
    }
}

#[test]
fn unresolved_identifier_fails_the_build() {
    let mut db = empty_db();
    db.enums.push(plain_enum("Fine", vec!["A"]));
    db.classes.push(ClassDecl {
        name: "Broken".to_string(),
        static_fields: vec![FieldDecl {
            name: "f".to_string(),
            field_type: AstFieldType::Identifier(
                FieldArity::Required,
                AstIdentifier::Local("Missing".to_string()),
            ),
            attributes: None,
        }],
        dynamic_fields: Vec::new(),
        attributes: None,
    });
    let r = IntermediateRepr::from_parser_database(&db);
    match r {
        Err(e) => {
            assert_eq!(e, LowerError::UnresolvedIdentifier);
            assert_eq!(e.message(), "Field type uses unresolvable local identifier");
        }
        Ok(_) => panic!("the build must fail"),
    }
}

#[test]
fn unsupported_identifier_in_type_position() {
    let db = empty_db();
    let t = AstFieldType::Identifier(FieldArity::Required, AstIdentifier::ENV("HOME".to_string()));
    match t.repr(&db) {
        Err(e) => assert_eq!(e, LowerError::UnsupportedIdentifierInTypePosition),
        Ok(_) => panic!("lowering must fail"),
    }
    let t = AstFieldType::Identifier(FieldArity::Required, AstIdentifier::Invalid);
    match t.repr(&db) {
        Err(e) => assert_eq!(e, LowerError::UnsupportedIdentifierInTypePosition),
        Ok(_) => panic!("lowering must fail"),
    }
}

#[test]
fn invalid_identifier_in_expression_fails() {
    let mut db = empty_db();
    db.clients.push(ClientDecl {
        name: "c".to_string(),
        provider: "p".to_string(),
        options: vec![("bad".to_string(), AstExpression::Identifier(AstIdentifier::Invalid))],
    });
    let r = IntermediateRepr::from_parser_database(&db);
    match r {
        Err(e) => {
            assert_eq!(e, LowerError::InvalidIdentifierLowering);
            assert_eq!(e.message(), "Cannot represent an invalid parser-AST identifier");
        }
        Ok(_) => panic!("the build must fail"),
    }
}

#[test]
fn named_output_is_rejected() {
    let mut db = empty_db();
    db.functions.push(FunctionDecl {
        name: "F".to_string(),
        input: AstFunctionArgs::Unnamed(AstFieldType::Identifier(
            FieldArity::Required,
            AstIdentifier::Primitive(TypeValue::String),
        )),
        output: AstFunctionArgs::Named(vec![(
            "out".to_string(),
            AstFieldType::Identifier(FieldArity::Required, AstIdentifier::Primitive(TypeValue::String)),
        )]),
        default_impl: None,
        variants: vec![plain_variant("a"), plain_variant("b")],
    });
    let r = IntermediateRepr::from_parser_database(&db);
    match r {
        Err(e) => {
            assert_eq!(e, LowerError::NamedReturnTypeNotAllowed);
            assert_eq!(e.message(), "Functions may not return named args");
        }
        Ok(_) => panic!("the build must fail"),
    }
}

#[test]
fn named_args_sort_required_first() {
    let mut db = empty_db();
    db.functions.push(FunctionDecl {
        name: "F".to_string(),
        input: AstFunctionArgs::Named(vec![
            (
                "a".to_string(),
                AstFieldType::Identifier(FieldArity::Optional, AstIdentifier::Primitive(TypeValue::String)),
            ),
            (
                "b".to_string(),
                AstFieldType::Identifier(FieldArity::Required, AstIdentifier::Primitive(TypeValue::String)),
            ),
            (
                "c".to_string(),
                AstFieldType::Identifier(FieldArity::Optional, AstIdentifier::Primitive(TypeValue::Int)),
            ),
        ]),
        output: unnamed_string_output(),
        default_impl: None,
        variants: Vec::new(),
    });
    let ir = IntermediateRepr::from_parser_database(&db).unwrap();
    let walkers = ir.walk_functions();
    match &walkers[0].item.elem.inputs {
        FunctionArgs::NamedArgList(args) => {
            let names: Vec<&str> = args.iter().map(|(n, _)| n.as_str()).collect();
            assert_eq!(names, vec!["b", "a", "c"]);
        }
        _ => panic!("named args expected"),
    }
}

#[test]
fn default_attributes_lower_in_order() {
    let mut db = empty_db();
    db.enums.push(EnumDecl {
        name: "E".to_string(),
        values: vec![],
        attributes: Some(ToStringAttributes::Static(StaticStringAttributes {
            skip: true,
            alias: Some("al".to_string()),
            meta: vec![("note".to_string(), "hello".to_string())],
        })),
    });
    let ir = IntermediateRepr::from_parser_database(&db).unwrap();
    let walkers = ir.walk_enums();
    let attrs = &walkers[0].item.attributes;
    assert_eq!(attrs.meta_len(), 3);
    let (k0, v0) = attrs.meta_at(0);
    assert_eq!(k0, "skip");
    assert!(matches!(v0, Expression::String(s) if s.is_empty()));
    let (k1, v1) = attrs.meta_at(1);
    assert_eq!(k1, "alias");
    assert!(matches!(v1, Expression::String(s) if s == "al"));
    let (k2, v2) = attrs.meta_at(2);
    assert_eq!(k2, "note");
    assert!(matches!(v2, Expression::String(s) if s == "hello"));
    match attrs.get("alias") {
        Some(Expression::String(s)) => assert_eq!(s, "al"),
        _ => panic!("alias expected"),
    }
    assert!(attrs.get("absent").is_none());
}

#[test]
fn meta_key_collision_replaces_in_place() {
    let mut db = empty_db();
    db.enums.push(EnumDecl {
        name: "E".to_string(),
        values: vec![],
        attributes: Some(ToStringAttributes::Static(StaticStringAttributes {
            skip: true,
            alias: None,
            meta: vec![("skip".to_string(), "why".to_string())],
        })),
    });
    let ir = IntermediateRepr::from_parser_database(&db).unwrap();
    let walkers = ir.walk_enums();
    let attrs = &walkers[0].item.attributes;
    assert_eq!(attrs.meta_len(), 1);
    let (k, v) = attrs.meta_at(0);
    assert_eq!(k, "skip");
    assert!(matches!(v, Expression::String(s) if s == "why"));
}

#[test]
fn dynamic_attributes_use_get_keys() {
    let mut db = empty_db();
    db.enums.push(EnumDecl {
        name: "E".to_string(),
        values: vec![],
        attributes: Some(ToStringAttributes::Dynamic(baml_ir::db::DynamicStringAttributes {
            code: vec![("python".to_string(), "lambda x: x".to_string())],
        })),
    });
    let ir = IntermediateRepr::from_parser_database(&db).unwrap();
    let walkers = ir.walk_enums();
    let attrs = &walkers[0].item.attributes;
    assert_eq!(attrs.meta_len(), 1);
    let (k, v) = attrs.meta_at(0);
    assert_eq!(k, "get/python");
    assert!(matches!(v, Expression::String(s) if s == "lambda x: x"));
}

#[test]
fn override_isolated_to_declaring_pair() {
    let mut db = empty_db();
    db.enums.push(plain_enum("E", vec!["V1", "V2"]));
    let mut v_a = plain_variant("A");
    v_a.member_overrides.push((
        ("E".to_string(), "V1".to_string()),
        ToStringAttributes::Static(StaticStringAttributes {
            skip: false,
            alias: Some("x".to_string()),
            meta: Vec::new(),
        }),
    ));
    let v_b = plain_variant("B");
    db.functions.push(FunctionDecl {
        name: "F".to_string(),
        input: AstFunctionArgs::Unnamed(AstFieldType::Identifier(
            FieldArity::Required,
            AstIdentifier::Primitive(TypeValue::String),
        )),
        output: unnamed_string_output(),
        default_impl: None,
        variants: vec![v_a, v_b],
    });
    let ir = IntermediateRepr::from_parser_database(&db).unwrap();
    let walkers = ir.walk_enums();
    let values = &walkers[0].item.elem.values;
    // V1 carries exactly one override, keyed (F, A).
    let v1_attrs = &values[0].attributes;
    assert_eq!(v1_attrs.overrides_len(), 1);
    let key = v1_attrs.override_key_at(0);
    assert_eq!(key.0, "F");
    assert_eq!(key.1, "A");
    assert_eq!(v1_attrs.override_meta_len_at(0), 1);
    let (k, v) = v1_attrs.override_meta_at(0, 0);
    assert_eq!(k, "alias");
    assert!(matches!(v, Expression::String(s) if s == "x"));
    // V2 gains nothing; B contributes no key anywhere.
    assert_eq!(values[1].attributes.overrides_len(), 0);
    // The enum's own block overrides are empty too.
    assert_eq!(walkers[0].item.attributes.overrides_len(), 0);
}

#[test]
fn serializer_override_reaches_block_attributes() {
    let mut db = empty_db();
    db.enums.push(plain_enum("E", vec![]));
    let mut v_a = plain_variant("A");
    v_a.serializer_attrs.push((
        "E".to_string(),
        ToStringAttributes::Static(StaticStringAttributes {
            skip: true,
            alias: None,
            meta: Vec::new(),
        }),
    ));
    db.functions.push(FunctionDecl {
        name: "F".to_string(),
        input: unnamed_string_output(),
        output: unnamed_string_output(),
        default_impl: None,
        variants: vec![v_a],
    });
    let ir = IntermediateRepr::from_parser_database(&db).unwrap();
    let walkers = ir.walk_enums();
    let attrs = &walkers[0].item.attributes;
    assert_eq!(attrs.overrides_len(), 1);
    let key = attrs.override_key_at(0);
    assert_eq!((key.0.as_str(), key.1.as_str()), ("F", "A"));
    assert_eq!(attrs.override_meta_len_at(0), 1);
    let (k, _) = attrs.override_meta_at(0, 0);
    assert_eq!(k, "skip");
}

#[test]
fn implementation_lowering_keeps_replacers_in_order() {
    let mut db = empty_db();
    let mut v = plain_variant("v1");
    v.input_replacers.push(("k1".to_string(), "old".to_string()));
    v.input_replacers.push(("k2".to_string(), "b".to_string()));
    v.input_replacers.push(("k1".to_string(), "new".to_string()));
    v.output_replacers.push(("o".to_string(), "x".to_string()));
    db.functions.push(FunctionDecl {
        name: "F".to_string(),
        input: unnamed_string_output(),
        output: unnamed_string_output(),
        default_impl: Some("v1".to_string()),
        variants: vec![v],
    });
    let ir = IntermediateRepr::from_parser_database(&db).unwrap();
    let walkers = ir.walk_functions();
    let f = &walkers[0].item.elem;
    assert_eq!(f.default_impl.as_deref(), Some("v1"));
    let im = &f.impls[0].elem;
    assert_eq!(im.oracle_type(), OracleType::LLM);
    assert_eq!(im.name, "v1");
    assert_eq!(im.prompt, "prompt");
    assert_eq!(im.client, "client");
    // A repeated key keeps its place and takes the latest value.
    assert_eq!(im.input_replacers_len(), 2);
    let (k0, v0) = im.input_replacer_at(0);
    assert_eq!((k0.as_str(), v0.as_str()), ("k1", "new"));
    let (k1, v1) = im.input_replacer_at(1);
    assert_eq!((k1.as_str(), v1.as_str()), ("k2", "b"));
    assert_eq!(im.output_replacers_len(), 1);
    let (ok, ov) = im.output_replacer_at(0);
    assert_eq!((ok.as_str(), ov.as_str()), ("o", "x"));
}

#[test]
fn client_and_retry_policy_lowering() {
    let mut db = empty_db();
    db.clients.push(ClientDecl {
        name: "gpt".to_string(),
        provider: "openai".to_string(),
        options: vec![
            ("model".to_string(), AstExpression::StringValue("gpt-4".to_string())),
            ("temp".to_string(), AstExpression::NumericValue("0".to_string())),
        ],
    });
    db.retry_policies.push(RetryPolicyDecl {
        name: "none".to_string(),
        max_retries: 2,
        strategy: RetryPolicyStrategy::ConstantDelay,
        options: None,
    });
    db.retry_policies.push(RetryPolicyDecl {
        name: "some".to_string(),
        max_retries: 5,
        strategy: RetryPolicyStrategy::ExponentialBackoff,
        options: Some(vec![(
            "delay_ms".to_string(),
            AstExpression::NumericValue("200".to_string()),
        )]),
    });
    let ir = IntermediateRepr::from_parser_database(&db).unwrap();
    let clients = ir.walk_clients();
    assert_eq!(clients[0].item.elem.name, "gpt");
    assert_eq!(clients[0].item.elem.provider, "openai");
    assert_eq!(clients[0].item.elem.options.len(), 2);
    assert!(matches!(&clients[0].item.elem.options[1].1, Expression::Numeric(n) if n == "0"));
    let policies = ir.walk_retry_policies();
    assert_eq!(policies.len(), 2);
    assert_eq!(policies[0].item.elem.name().0, "none");
    assert_eq!(policies[0].item.elem.max_retries(), 2);
    assert_eq!(policies[0].item.elem.strategy(), RetryPolicyStrategy::ConstantDelay);
    assert!(policies[0].item.elem.options().is_empty());
    assert_eq!(policies[1].item.elem.name().0, "some");
    assert_eq!(policies[1].item.elem.options().len(), 1);
}

#[test]
fn expressions_lower_structurally() {
    let db = empty_db();
    let e = AstExpression::Array(vec![
        AstExpression::NumericValue("1".to_string()),
        AstExpression::Dict(vec![(
            AstExpression::StringValue("k".to_string()),
            AstExpression::RawStringValue("raw".to_string()),
        )]),
        AstExpression::Identifier(AstIdentifier::ENV("HOME".to_string())),
        AstExpression::Identifier(AstIdentifier::String("with-dash".to_string())),
    ]);
    match e.repr(&db).unwrap() {
        Expression::List(items) => {
            assert_eq!(items.len(), 4);
            assert!(matches!(&items[0], Expression::Numeric(n) if n == "1"));
            match &items[1] {
                Expression::Dict(kvs) => {
                    assert!(matches!(&kvs[0].0, Expression::String(s) if s == "k"));
                    assert!(matches!(&kvs[0].1, Expression::RawString(s) if s == "raw"));
                }
                _ => panic!("dict expected"),
            }
            assert!(matches!(&items[2], Expression::Identifier(_)));
            // A dash-bearing identifier lowers to a plain string.
            assert!(matches!(&items[3], Expression::String(s) if s == "with-dash"));
        }
        _ => panic!("list expected"),
    }
}

#[test]
fn empty_database_builds_empty_repr() {
    let db = empty_db();
    let ir = IntermediateRepr::from_parser_database(&db).unwrap();
    assert!(ir.walk_enums().is_empty());
    assert!(ir.walk_classes().is_empty());
    assert!(ir.walk_functions().is_empty());
    assert!(ir.walk_clients().is_empty());
    assert!(ir.walk_retry_policies().is_empty());
}
