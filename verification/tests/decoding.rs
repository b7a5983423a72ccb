//! Join spec lookups, argument decoding, tokens and small helpers.

use supergraph_compose::connect::Code;
use supergraph_compose::connect::Severity;
use supergraph_compose::document::Argument;
use supergraph_compose::document::Directive;
use supergraph_compose::document::Value;
use supergraph_compose::graphql::Location;
use supergraph_compose::join_spec::ContextArgument;
use supergraph_compose::join_spec::JoinSpecDefinition;
use supergraph_compose::join_spec::Version;
use supergraph_compose::merge::is_mergeable_type;
use supergraph_compose::merge::merge_subgraphs;
use supergraph_compose::token::derive_token;
use supergraph_compose::token::is_valid_graphql_name;

fn str_arg(name: &str, value: &str) -> Argument {
    Argument { name: name.to_string(), value: Value::Str(value.to_string()) }
}

fn join_type_application(args: Vec<Argument>) -> Directive {
    Directive { name: "join__type".to_string(), arguments: args }
}

#[test]
fn join_spec_lookups_find_the_bootstrap() {
    let s = merge_subgraphs(&vec![]).ok().expect("composes");
    let spec = JoinSpecDefinition::new(Version { major: 0, minor: 3 });
    assert!(spec.graph_enum_definition(&s.schema).is_ok());
    assert!(spec.graph_directive_definition(&s.schema).is_ok());
    assert!(spec.type_directive_definition(&s.schema).is_ok());
    assert!(spec.field_directive_definition(&s.schema).is_ok());
    assert!(matches!(spec.implements_directive_definition(&s.schema), Ok(Some(_))));
    assert!(matches!(spec.union_member_directive_definition(&s.schema), Ok(Some(_))));
    assert!(matches!(spec.enum_value_directive_definition(&s.schema), Ok(Some(_))));
}

#[test]
fn join_spec_lookups_gate_on_version() {
    let s = merge_subgraphs(&vec![]).ok().expect("composes");
    let old_spec = JoinSpecDefinition::new(Version { major: 0, minor: 1 });
    assert!(matches!(old_spec.implements_directive_definition(&s.schema), Ok(None)));
    assert!(matches!(old_spec.union_member_directive_definition(&s.schema), Ok(None)));
    assert!(matches!(old_spec.enum_value_directive_definition(&s.schema), Ok(None)));
    let mid_spec = JoinSpecDefinition::new(Version { major: 0, minor: 2 });
    assert!(matches!(mid_spec.implements_directive_definition(&s.schema), Ok(Some(_))));
    assert!(matches!(mid_spec.union_member_directive_definition(&s.schema), Ok(None)));
}

#[test]
fn join_spec_lookup_fails_without_bootstrap() {
    let empty = supergraph_compose::document::Document {
        description: None,
        schema_directives: vec![],
        query_root: None,
        mutation_root: None,
        subscription_root: None,
        types: vec![],
        directive_definitions: vec![],
    };
    let spec = JoinSpecDefinition::new(Version { major: 0, minor: 3 });
    let err = spec.graph_enum_definition(&empty).err().expect("lookup must fail");
    assert_eq!(err.message(), "Unexpectedly could not find join spec in schema");
}

#[test]
fn type_directive_arguments_apply_defaults() {
    let spec = JoinSpecDefinition::new(Version { major: 0, minor: 3 });
    let d = join_type_application(vec![Argument {
        name: "graph".to_string(),
        value: Value::Enum("ACCOUNTS".to_string()),
    }]);
    let a = spec.type_directive_arguments(&d).ok().expect("decodes");
    assert_eq!(a.graph, "ACCOUNTS");
    assert!(a.key.is_none());
    assert!(!a.extension);
    assert!(a.resolvable);
    assert!(!a.is_interface_object);
}

#[test]
fn type_directive_arguments_read_explicit_values() {
    let spec = JoinSpecDefinition::new(Version { major: 0, minor: 3 });
    let d = join_type_application(vec![
        Argument { name: "graph".to_string(), value: Value::Enum("B".to_string()) },
        str_arg("key", "id sku"),
        Argument { name: "resolvable".to_string(), value: Value::Boolean(false) },
        Argument { name: "isInterfaceObject".to_string(), value: Value::Boolean(true) },
    ]);
    let a = spec.type_directive_arguments(&d).ok().expect("decodes");
    assert_eq!(a.graph, "B");
    assert_eq!(a.key.as_deref(), Some("id sku"));
    assert!(!a.extension);
    assert!(!a.resolvable);
    assert!(a.is_interface_object);
}

#[test]
fn type_directive_arguments_require_graph() {
    let spec = JoinSpecDefinition::new(Version { major: 0, minor: 3 });
    let d = join_type_application(vec![str_arg("key", "id")]);
    let err = spec.type_directive_arguments(&d).err().expect("graph is required");
    assert_eq!(err.message(), "Required argument \"graph\" is missing");
}

#[test]
fn graph_directive_arguments_decode_name_and_url() {
    let spec = JoinSpecDefinition::new(Version { major: 0, minor: 3 });
    let d = Directive {
        name: "join__graph".to_string(),
        arguments: vec![str_arg("name", "accounts"), str_arg("url", "http://accounts")],
    };
    let a = spec.graph_directive_arguments(&d).ok().expect("decodes");
    assert_eq!(a.name, "accounts");
    assert_eq!(a.url, "http://accounts");
}

#[test]
fn field_directive_arguments_decode_context_arguments() {
    let spec = JoinSpecDefinition::new(Version { major: 0, minor: 5 });
    let entry = Value::Object(vec![
        ("name".to_string(), Value::Str("ctx".to_string())),
        ("type".to_string(), Value::Str("ID!".to_string())),
        ("context".to_string(), Value::Str("userContext".to_string())),
        ("selection".to_string(), Value::Str("id".to_string())),
    ]);
    let d = Directive {
        name: "join__field".to_string(),
        arguments: vec![
            Argument { name: "graph".to_string(), value: Value::Enum("A".to_string()) },
            str_arg("requires", "weight"),
            Argument { name: "external".to_string(), value: Value::Boolean(true) },
            Argument { name: "contextArguments".to_string(), value: Value::List(vec![entry]) },
        ],
    };
    let a = spec.field_directive_arguments(&d).ok().expect("decodes");
    assert_eq!(a.graph.as_deref(), Some("A"));
    assert_eq!(a.requires_.as_deref(), Some("weight"));
    assert!(a.provides.is_none());
    assert_eq!(a.external, Some(true));
    let ctx = a.context_arguments.expect("context arguments decoded");
    assert_eq!(ctx.len(), 1);
    assert_eq!(ctx[0].name, "ctx");
    assert_eq!(ctx[0].type_, "ID!");
    assert_eq!(ctx[0].context, "userContext");
    assert_eq!(ctx[0].selection, "id");
}

#[test]
fn context_argument_rejects_repeated_field() {
    let v = Value::Object(vec![
        ("name".to_string(), Value::Str("a".to_string())),
        ("name".to_string(), Value::Str("b".to_string())),
    ]);
    let err = ContextArgument::try_from(&v).err().expect("must fail");
    assert_eq!(
        err.message(),
        "Input field \"name\" in contextArguments is repeated with value \"\"b\"\" (previous value was \"\"a\"\")"
    );
}

#[test]
fn context_argument_rejects_missing_field() {
    let v = Value::Object(vec![
        ("name".to_string(), Value::Str("a".to_string())),
        ("type".to_string(), Value::Str("ID".to_string())),
        ("context".to_string(), Value::Str("c".to_string())),
    ]);
    let err = ContextArgument::try_from(&v).err().expect("must fail");
    assert_eq!(err.message(), "Input field \"selection\" is missing from contextArguments");
}

#[test]
fn context_argument_rejects_unknown_field() {
    let v = Value::Object(vec![("nonsense".to_string(), Value::Str("a".to_string()))]);
    let err = ContextArgument::try_from(&v).err().expect("must fail");
    assert_eq!(err.message(), "Found unknown contextArguments input field \"nonsense\"");
}

#[test]
fn context_argument_rejects_non_string_field() {
    let v = Value::Object(vec![
        ("name".to_string(), Value::Boolean(true)),
        ("type".to_string(), Value::Str("ID".to_string())),
        ("context".to_string(), Value::Str("c".to_string())),
        ("selection".to_string(), Value::Str("s".to_string())),
    ]);
    let err = ContextArgument::try_from(&v).err().expect("must fail");
    assert_eq!(err.message(), "Input field \"name\" in contextArguments is not a string");
}

#[test]
fn context_argument_rejects_non_object_entry() {
    let v = Value::Str("nope".to_string());
    let err = ContextArgument::try_from(&v).err().expect("must fail");
    assert_eq!(err.message(), "Item \"\"nope\"\" in contextArguments list is not an object");
    let nested = Value::List(vec![
        Value::Int("1".to_string()),
        Value::Boolean(true),
        Value::Object(vec![("k".to_string(), Value::Null)]),
    ]);
    let err2 = ContextArgument::try_from(&nested).err().expect("must fail");
    assert_eq!(
        err2.message(),
        "Item \"[1, true, {k: null}]\" in contextArguments list is not an object"
    );
}

#[test]
fn severity_warns_only_for_the_two_soft_codes() {
    assert!(matches!(Code::NoSourceImport.severity(), Severity::Warning));
    assert!(matches!(Code::NullabilityMismatch.severity(), Severity::Warning));
    assert!(matches!(Code::GraphQLError.severity(), Severity::Error));
    assert!(matches!(Code::InvalidUrl.severity(), Severity::Error));
    assert!(matches!(Code::UnknownConnectorsVersion.severity(), Severity::Error));
}

#[test]
fn mergeable_type_names_exclude_the_federation_family() {
    assert!(!is_mergeable_type("federation__Scope"));
    assert!(!is_mergeable_type("link__Import"));
    assert!(!is_mergeable_type("_Any"));
    assert!(!is_mergeable_type("_Entity"));
    assert!(!is_mergeable_type("_Service"));
    assert!(!is_mergeable_type("@key"));
    assert!(is_mergeable_type("Product"));
    assert!(is_mergeable_type("linkage"));
}

#[test]
fn token_derivation_uppercases_and_validates() {
    assert_eq!(derive_token("accounts").as_deref(), Some("ACCOUNTS"));
    assert_eq!(derive_token("reviews_v2").as_deref(), Some("REVIEWS_V2"));
    assert!(derive_token("1bad").is_none());
    assert!(derive_token("with-dash").is_none());
    assert!(derive_token("").is_none());
}

#[test]
fn graphql_name_grammar() {
    assert!(is_valid_graphql_name("Product"));
    assert!(is_valid_graphql_name("_private"));
    assert!(is_valid_graphql_name("a1"));
    assert!(!is_valid_graphql_name("1a"));
    assert!(!is_valid_graphql_name(""));
    assert!(!is_valid_graphql_name("a-b"));
}

#[test]
fn location_holds_line_and_column() {
    let l = Location::new(3, 14);
    assert_eq!(l.line, 3);
    assert_eq!(l.column, 14);
    let copy = l;
    assert_eq!(copy, l);
}
