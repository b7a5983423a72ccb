//! End-to-end composition scenarios over the document model.

use supergraph_compose::document::Argument;
use supergraph_compose::document::Directive;
use supergraph_compose::document::DirectiveDefinition;
use supergraph_compose::document::DirectiveLocation;
use supergraph_compose::document::Document;
use supergraph_compose::document::EnumDef;
use supergraph_compose::document::EnumValueDefinition;
use supergraph_compose::document::FieldDefinition;
use supergraph_compose::document::InputObjectDef;
use supergraph_compose::document::InputValue;
use supergraph_compose::document::InterfaceDef;
use supergraph_compose::document::ObjectDef;
use supergraph_compose::document::Subgraph;
use supergraph_compose::document::Ty;
use supergraph_compose::document::TypeDef;
use supergraph_compose::document::TypeEntry;
use supergraph_compose::document::UnionDef;
use supergraph_compose::document::Value;
use supergraph_compose::merge::merge_subgraphs;
use supergraph_compose::merge::MergeSuccess;

fn empty_doc() -> Document {
    Document {
        description: None,
        schema_directives: vec![],
        query_root: None,
        mutation_root: None,
        subscription_root: None,
        types: vec![],
        directive_definitions: vec![],
    }
}

fn subgraph_with(name: &str, url: &str, types: Vec<TypeEntry>) -> Subgraph {
    let mut doc = empty_doc();
    doc.types = types;
    Subgraph { name: name.to_string(), url: url.to_string(), schema: doc }
}

fn named_field(name: &str, ty: &str) -> FieldDefinition {
    FieldDefinition {
        name: name.to_string(),
        description: None,
        arguments: vec![],
        ty: Ty::Named(ty.to_string()),
        directives: vec![],
    }
}

fn key_directive(fields: &str) -> Directive {
    Directive {
        name: "key".to_string(),
        arguments: vec![Argument {
            name: "fields".to_string(),
            value: Value::Str(fields.to_string()),
        }],
    }
}

fn object_entry(
    name: &str,
    directives: Vec<Directive>,
    fields: Vec<FieldDefinition>,
) -> TypeEntry {
    TypeEntry {
        name: name.to_string(),
        built_in: false,
        def: TypeDef::Object(ObjectDef {
            description: None,
            directives,
            implements_interfaces: vec![],
            fields,
        }),
    }
}

fn get_type<'a>(s: &'a MergeSuccess, name: &str) -> &'a TypeEntry {
    s.schema
        .types
        .iter()
        .find(|t| t.name == name)
        .unwrap_or_else(|| panic!("type {} not found", name))
}

fn directives_of<'a>(dirs: &'a [Directive], name: &str) -> Vec<&'a Directive> {
    dirs.iter().filter(|d| d.name == name).collect()
}

fn str_argument<'a>(d: &'a Directive, name: &str) -> Option<&'a str> {
    d.arguments.iter().find(|a| a.name == name).and_then(|a| match &a.value {
        Value::Str(s) => Some(s.as_str()),
        _ => None,
    })
}

fn enum_argument<'a>(d: &'a Directive, name: &str) -> Option<&'a str> {
    d.arguments.iter().find(|a| a.name == name).and_then(|a| match &a.value {
        Value::Enum(s) => Some(s.as_str()),
        _ => None,
    })
}

fn bool_argument(d: &Directive, name: &str) -> Option<bool> {
    d.arguments.iter().find(|a| a.name == name).and_then(|a| match &a.value {
        Value::Boolean(b) => Some(*b),
        _ => None,
    })
}

#[test]
fn empty_input_yields_bootstrapped_schema() {
    let s = merge_subgraphs(&vec![]).ok().expect("empty input composes");
    let type_names: Vec<&str> = s.schema.types.iter().map(|t| t.name.as_str()).collect();
    assert_eq!(
        type_names,
        vec!["link__Purpose", "link__Import", "join__FieldSet", "join__Graph"]
    );
    let def_names: Vec<&str> =
        s.schema.directive_definitions.iter().map(|d| d.name.as_str()).collect();
    assert_eq!(
        def_names,
        vec![
            "link",
            "join__graph",
            "join__type",
            "join__field",
            "join__implements",
            "join__unionMember",
            "join__enumValue"
        ]
    );
    match &get_type(&s, "join__Graph").def {
        TypeDef::Enum(e) => assert!(e.values.is_empty()),
        _ => panic!("join__Graph is not an enum"),
    }
    assert_eq!(s.schema.schema_directives.len(), 2);
    assert_eq!(
        str_argument(&s.schema.schema_directives[0], "url"),
        Some("https://specs.apollo.dev/link/v1.0")
    );
    assert_eq!(
        str_argument(&s.schema.schema_directives[1], "url"),
        Some("https://specs.apollo.dev/join/v0.3")
    );
    assert!(s.composition_hints.is_empty());
}

#[test]
fn subgraph_name_becomes_uppercase_token() {
    let s = merge_subgraphs(&vec![subgraph_with("accounts", "http://accounts", vec![])])
        .ok()
        .expect("composes");
    match &get_type(&s, "join__Graph").def {
        TypeDef::Enum(e) => {
            assert_eq!(e.values.len(), 1);
            assert_eq!(e.values[0].value, "ACCOUNTS");
            let graph_dirs = directives_of(&e.values[0].directives, "join__graph");
            assert_eq!(graph_dirs.len(), 1);
            assert_eq!(str_argument(graph_dirs[0], "name"), Some("accounts"));
            assert_eq!(str_argument(graph_dirs[0], "url"), Some("http://accounts"));
        }
        _ => panic!("join__Graph is not an enum"),
    }
}

#[test]
fn invalid_subgraph_name_is_fatal() {
    let r = merge_subgraphs(&vec![subgraph_with("1bad", "http://bad", vec![])]);
    let f = r.err().expect("composition must fail");
    assert!(f.schema.is_none());
    assert_eq!(
        f.errors,
        vec!["Subgraph name couldn't be transformed into valid GraphQL name".to_string()]
    );
}

#[test]
fn key_fields_stay_undecorated_and_keys_propagate() {
    let product_a = object_entry(
        "Product",
        vec![key_directive("id")],
        vec![named_field("id", "ID")],
    );
    let product_b = object_entry(
        "Product",
        vec![key_directive("id")],
        vec![named_field("id", "ID"), named_field("name", "String")],
    );
    let s = merge_subgraphs(&vec![
        subgraph_with("A", "http://a", vec![product_a]),
        subgraph_with("B", "http://b", vec![product_b]),
    ])
    .ok()
    .expect("composes");
    let product = get_type(&s, "Product");
    match &product.def {
        TypeDef::Object(o) => {
            let join_types = directives_of(&o.directives, "join__type");
            assert_eq!(join_types.len(), 2);
            assert_eq!(enum_argument(join_types[0], "graph"), Some("A"));
            assert_eq!(str_argument(join_types[0], "key"), Some("id"));
            assert_eq!(enum_argument(join_types[1], "graph"), Some("B"));
            assert_eq!(str_argument(join_types[1], "key"), Some("id"));
            let id = o.fields.iter().find(|f| f.name == "id").expect("id kept");
            assert!(directives_of(&id.directives, "join__field").is_empty());
            let name = o.fields.iter().find(|f| f.name == "name").expect("name kept");
            let name_joins = directives_of(&name.directives, "join__field");
            assert_eq!(name_joins.len(), 1);
            assert_eq!(enum_argument(name_joins[0], "graph"), Some("B"));
        }
        _ => panic!("Product is not an object"),
    }
}

#[test]
fn requires_provides_external_reach_join_field() {
    let product = object_entry(
        "Product",
        vec![key_directive("id")],
        vec![
            named_field("id", "ID"),
            FieldDefinition {
                name: "shipping".to_string(),
                description: None,
                arguments: vec![],
                ty: Ty::Named("String".to_string()),
                directives: vec![Directive {
                    name: "requires".to_string(),
                    arguments: vec![Argument {
                        name: "fields".to_string(),
                        value: Value::Str("weight".to_string()),
                    }],
                }],
            },
            FieldDefinition {
                name: "weight".to_string(),
                description: None,
                arguments: vec![],
                ty: Ty::Named("Int".to_string()),
                directives: vec![Directive { name: "external".to_string(), arguments: vec![] }],
            },
        ],
    );
    let s = merge_subgraphs(&vec![subgraph_with("A", "http://a", vec![product])])
        .ok()
        .expect("composes");
    match &get_type(&s, "Product").def {
        TypeDef::Object(o) => {
            let shipping = o.fields.iter().find(|f| f.name == "shipping").unwrap();
            let jf = directives_of(&shipping.directives, "join__field");
            assert_eq!(jf.len(), 1);
            assert_eq!(str_argument(jf[0], "requires"), Some("weight"));
            let weight = o.fields.iter().find(|f| f.name == "weight").unwrap();
            let jw = directives_of(&weight.directives, "join__field");
            assert_eq!(jw.len(), 1);
            assert_eq!(bool_argument(jw[0], "external"), Some(true));
        }
        _ => panic!("Product is not an object"),
    }
}

#[test]
fn entity_fields_never_reach_the_supergraph() {
    let query = object_entry(
        "Query",
        vec![],
        vec![
            named_field("_service", "_Service"),
            named_field("_entities", "_Entity"),
            named_field("me", "User"),
        ],
    );
    let s = merge_subgraphs(&vec![subgraph_with("A", "http://a", vec![query])])
        .ok()
        .expect("composes");
    match &get_type(&s, "Query").def {
        TypeDef::Object(o) => {
            let names: Vec<&str> = o.fields.iter().map(|f| f.name.as_str()).collect();
            assert_eq!(names, vec!["me"]);
        }
        _ => panic!("Query is not an object"),
    }
}

#[test]
fn federation_internal_types_never_reach_the_supergraph() {
    let scope = TypeEntry {
        name: "federation__Scope".to_string(),
        built_in: false,
        def: TypeDef::Enum(EnumDef { description: None, directives: vec![], values: vec![] }),
    };
    let built_in = TypeEntry {
        name: "String".to_string(),
        built_in: true,
        def: TypeDef::Scalar(supergraph_compose::document::ScalarDef {
            description: None,
            directives: vec![],
        }),
    };
    let user = object_entry("User", vec![], vec![named_field("id", "ID")]);
    let s = merge_subgraphs(&vec![subgraph_with("A", "http://a", vec![scope, built_in, user])])
        .ok()
        .expect("composes");
    assert!(s.schema.types.iter().all(|t| t.name != "federation__Scope"));
    assert!(s.schema.types.iter().all(|t| t.name != "String"));
    assert!(s.schema.types.iter().any(|t| t.name == "User"));
}

#[test]
fn interface_object_folds_into_one_interface() {
    let alpha_x = object_entry(
        "X",
        vec![
            Directive { name: "interfaceObject".to_string(), arguments: vec![] },
            key_directive("id"),
        ],
        vec![named_field("id", "ID")],
    );
    let beta_x = object_entry("X", vec![key_directive("id")], vec![named_field("id", "ID")]);
    let s = merge_subgraphs(&vec![
        subgraph_with("alpha", "http://alpha", vec![alpha_x]),
        subgraph_with("beta", "http://beta", vec![beta_x]),
    ])
    .ok()
    .expect("composes");
    let xs: Vec<&TypeEntry> = s.schema.types.iter().filter(|t| t.name == "X").collect();
    assert_eq!(xs.len(), 1);
    match &xs[0].def {
        TypeDef::Interface(i) => {
            let join_types = directives_of(&i.directives, "join__type");
            assert_eq!(join_types.len(), 2);
            assert_eq!(enum_argument(join_types[0], "graph"), Some("ALPHA"));
            assert_eq!(bool_argument(join_types[0], "isInterfaceObject"), Some(true));
        }
        _ => panic!("X did not fold into an interface"),
    }
}

#[test]
fn executable_directive_appears_exactly_once() {
    let tag = DirectiveDefinition {
        name: "mytag".to_string(),
        description: None,
        arguments: vec![],
        repeatable: false,
        locations: vec![DirectiveLocation::Field],
    };
    let type_system_only = DirectiveDefinition {
        name: "internalonly".to_string(),
        description: None,
        arguments: vec![],
        repeatable: false,
        locations: vec![DirectiveLocation::Object],
    };
    let mut doc_a = empty_doc();
    doc_a.directive_definitions = vec![tag.clone_for_test(), type_system_only];
    let skip_copy = DirectiveDefinition {
        name: "skip".to_string(),
        description: None,
        arguments: vec![],
        repeatable: false,
        locations: vec![DirectiveLocation::Field],
    };
    let mut doc_b = empty_doc();
    doc_b.directive_definitions = vec![tag, skip_copy];
    let s = merge_subgraphs(&vec![
        Subgraph { name: "a".to_string(), url: "http://a".to_string(), schema: doc_a },
        Subgraph { name: "b".to_string(), url: "http://b".to_string(), schema: doc_b },
    ])
    .ok()
    .expect("composes");
    let mytags: Vec<&DirectiveDefinition> =
        s.schema.directive_definitions.iter().filter(|d| d.name == "mytag").collect();
    assert_eq!(mytags.len(), 1);
    assert!(s.schema.directive_definitions.iter().all(|d| d.name != "internalonly"));
    // A copy of a language built-in is already implicit and never re-added.
    assert!(s.schema.directive_definitions.iter().all(|d| d.name != "skip"));
}

#[test]
fn composing_in_any_order_yields_identical_output() {
    let a = subgraph_with(
        "accounts",
        "http://accounts",
        vec![object_entry(
            "Product",
            vec![key_directive("id")],
            vec![named_field("id", "ID")],
        )],
    );
    let b = subgraph_with(
        "billing",
        "http://billing",
        vec![object_entry(
            "Product",
            vec![key_directive("id")],
            vec![named_field("id", "ID"), named_field("invoice", "String")],
        )],
    );
    let a2 = subgraph_with(
        "accounts",
        "http://accounts",
        vec![object_entry(
            "Product",
            vec![key_directive("id")],
            vec![named_field("id", "ID")],
        )],
    );
    let b2 = subgraph_with(
        "billing",
        "http://billing",
        vec![object_entry(
            "Product",
            vec![key_directive("id")],
            vec![named_field("id", "ID"), named_field("invoice", "String")],
        )],
    );
    let r1 = merge_subgraphs(&vec![a, b]).ok().expect("composes");
    let r2 = merge_subgraphs(&vec![b2, a2]).ok().expect("composes");
    assert!(r1.schema == r2.schema);
    assert_eq!(r1.composition_hints, r2.composition_hints);
}

#[test]
fn conflicting_descriptions_leave_a_hint() {
    let mk = |desc: &str| TypeEntry {
        name: "Color".to_string(),
        built_in: false,
        def: TypeDef::Enum(EnumDef {
            description: Some(desc.to_string()),
            directives: vec![],
            values: vec![EnumValueDefinition {
                value: "RED".to_string(),
                description: None,
                directives: vec![],
            }],
        }),
    };
    let s = merge_subgraphs(&vec![
        subgraph_with("a", "http://a", vec![mk("warm colors")]),
        subgraph_with("b", "http://b", vec![mk("cold colors")]),
    ])
    .ok()
    .expect("composes");
    assert_eq!(s.composition_hints, vec!["conflicting descriptions".to_string()]);
    match &get_type(&s, "Color").def {
        TypeDef::Enum(e) => {
            assert_eq!(e.description.as_deref(), Some("warm colors"));
            assert_eq!(e.values.len(), 1);
            let joins = directives_of(&e.values[0].directives, "join__enumValue");
            assert_eq!(joins.len(), 2);
            assert_eq!(enum_argument(joins[0], "graph"), Some("A"));
            assert_eq!(enum_argument(joins[1], "graph"), Some("B"));
        }
        _ => panic!("Color is not an enum"),
    }
}

#[test]
fn union_members_union_and_each_adds_a_member_directive() {
    let mk = |members: Vec<&str>| TypeEntry {
        name: "Media".to_string(),
        built_in: false,
        def: TypeDef::Union(UnionDef {
            description: None,
            directives: vec![],
            members: members.into_iter().map(|m| m.to_string()).collect(),
        }),
    };
    let s = merge_subgraphs(&vec![
        subgraph_with("a", "http://a", vec![mk(vec!["Book", "Movie"])]),
        subgraph_with("b", "http://b", vec![mk(vec!["Movie", "Song"])]),
    ])
    .ok()
    .expect("composes");
    match &get_type(&s, "Media").def {
        TypeDef::Union(u) => {
            assert_eq!(u.members, vec!["Book", "Movie", "Song"]);
            let joins = directives_of(&u.directives, "join__unionMember");
            assert_eq!(joins.len(), 4);
        }
        _ => panic!("Media is not a union"),
    }
}

#[test]
fn interface_gains_missing_fields_as_shells() {
    let mk = |fields: Vec<FieldDefinition>| TypeEntry {
        name: "Node".to_string(),
        built_in: false,
        def: TypeDef::Interface(InterfaceDef {
            description: None,
            directives: vec![key_directive("id")],
            implements_interfaces: vec![],
            fields,
        }),
    };
    let s = merge_subgraphs(&vec![
        subgraph_with("a", "http://a", vec![mk(vec![named_field("id", "ID")])]),
        subgraph_with(
            "b",
            "http://b",
            vec![mk(vec![named_field("id", "ID"), named_field("extra", "String")])],
        ),
    ])
    .ok()
    .expect("composes");
    match &get_type(&s, "Node").def {
        TypeDef::Interface(i) => {
            let names: Vec<&str> = i.fields.iter().map(|f| f.name.as_str()).collect();
            assert_eq!(names, vec!["id", "extra"]);
            let join_types = directives_of(&i.directives, "join__type");
            assert_eq!(join_types.len(), 2);
            assert_eq!(str_argument(join_types[0], "key"), Some("id"));
        }
        _ => panic!("Node is not an interface"),
    }
}

#[test]
fn input_object_fields_union_across_subgraphs() {
    let mk = |fields: Vec<&str>| TypeEntry {
        name: "Filter".to_string(),
        built_in: false,
        def: TypeDef::InputObject(InputObjectDef {
            description: None,
            directives: vec![],
            fields: fields
                .into_iter()
                .map(|f| InputValue {
                    name: f.to_string(),
                    description: None,
                    ty: Ty::Named("String".to_string()),
                    default_value: None,
                    directives: vec![],
                })
                .collect(),
        }),
    };
    let s = merge_subgraphs(&vec![
        subgraph_with("a", "http://a", vec![mk(vec!["q"])]),
        subgraph_with("b", "http://b", vec![mk(vec!["q", "limit"])]),
    ])
    .ok()
    .expect("composes");
    match &get_type(&s, "Filter").def {
        TypeDef::InputObject(io) => {
            let names: Vec<&str> = io.fields.iter().map(|f| f.name.as_str()).collect();
            assert_eq!(names, vec!["q", "limit"]);
            assert_eq!(directives_of(&io.directives, "join__type").len(), 2);
        }
        _ => panic!("Filter is not an input object"),
    }
}

#[test]
fn last_subgraph_wins_root_operations() {
    let mut doc_a = empty_doc();
    doc_a.query_root = Some("QueryA".to_string());
    let mut doc_b = empty_doc();
    doc_b.query_root = Some("QueryB".to_string());
    let s = merge_subgraphs(&vec![
        Subgraph { name: "a".to_string(), url: "http://a".to_string(), schema: doc_a },
        Subgraph { name: "b".to_string(), url: "http://b".to_string(), schema: doc_b },
    ])
    .ok()
    .expect("composes");
    assert_eq!(s.schema.query_root.as_deref(), Some("QueryB"));
}

#[test]
fn unresolvable_key_marks_resolvable_false() {
    let product = object_entry(
        "Product",
        vec![Directive {
            name: "key".to_string(),
            arguments: vec![
                Argument {
                    name: "fields".to_string(),
                    value: Value::Str("id".to_string()),
                },
                Argument { name: "resolvable".to_string(), value: Value::Boolean(false) },
            ],
        }],
        vec![named_field("id", "ID")],
    );
    let s = merge_subgraphs(&vec![subgraph_with("a", "http://a", vec![product])])
        .ok()
        .expect("composes");
    match &get_type(&s, "Product").def {
        TypeDef::Object(o) => {
            let join_types = directives_of(&o.directives, "join__type");
            assert_eq!(join_types.len(), 1);
            assert_eq!(bool_argument(join_types[0], "resolvable"), Some(false));
        }
        _ => panic!("Product is not an object"),
    }
}

trait CloneForTest {
    fn clone_for_test(&self) -> Self;
}

impl CloneForTest for DirectiveDefinition {
    fn clone_for_test(&self) -> DirectiveDefinition {
        DirectiveDefinition {
            name: self.name.clone(),
            description: self.description.clone(),
            arguments: vec![],
            repeatable: self.repeatable,
            locations: self.locations.clone(),
        }
    }
}

#[test]
fn multi_field_key_leaves_all_key_fields_undecorated() {
    let product = object_entry(
        "Product",
        vec![key_directive("id sku")],
        vec![
            named_field("id", "ID"),
            named_field("sku", "String"),
            named_field("price", "Int"),
        ],
    );
    let s = merge_subgraphs(&vec![subgraph_with("a", "http://a", vec![product])])
        .ok()
        .expect("composes");
    match &get_type(&s, "Product").def {
        TypeDef::Object(o) => {
            let join_types = directives_of(&o.directives, "join__type");
            assert_eq!(join_types.len(), 1);
            assert_eq!(str_argument(join_types[0], "key"), Some("id sku"));
            for key_field in ["id", "sku"] {
                let f = o.fields.iter().find(|f| f.name == key_field).unwrap();
                assert!(directives_of(&f.directives, "join__field").is_empty());
            }
            let price = o.fields.iter().find(|f| f.name == "price").unwrap();
            assert_eq!(directives_of(&price.directives, "join__field").len(), 1);
        }
        _ => panic!("Product is not an object"),
    }
}

#[test]
fn query_fields_get_join_field_without_keys() {
    let query = object_entry("Query", vec![], vec![named_field("me", "User")]);
    let s = merge_subgraphs(&vec![subgraph_with("a", "http://a", vec![query])])
        .ok()
        .expect("composes");
    match &get_type(&s, "Query").def {
        TypeDef::Object(o) => {
            let me = o.fields.iter().find(|f| f.name == "me").unwrap();
            let joins = directives_of(&me.directives, "join__field");
            assert_eq!(joins.len(), 1);
            assert_eq!(enum_argument(joins[0], "graph"), Some("A"));
        }
        _ => panic!("Query is not an object"),
    }
}

#[test]
fn keyless_non_query_object_fields_stay_plain() {
    let user = object_entry("User", vec![], vec![named_field("id", "ID")]);
    let s = merge_subgraphs(&vec![subgraph_with("a", "http://a", vec![user])])
        .ok()
        .expect("composes");
    match &get_type(&s, "User").def {
        TypeDef::Object(o) => {
            let join_types = directives_of(&o.directives, "join__type");
            assert_eq!(join_types.len(), 1);
            assert!(str_argument(join_types[0], "key").is_none());
            let id = o.fields.iter().find(|f| f.name == "id").unwrap();
            assert!(directives_of(&id.directives, "join__field").is_empty());
        }
        _ => panic!("User is not an object"),
    }
}

#[test]
fn implemented_interfaces_union_with_join_implements() {
    let mk = |ifaces: Vec<&str>| TypeEntry {
        name: "Book".to_string(),
        built_in: false,
        def: TypeDef::Object(ObjectDef {
            description: None,
            directives: vec![],
            implements_interfaces: ifaces.into_iter().map(|i| i.to_string()).collect(),
            fields: vec![named_field("id", "ID")],
        }),
    };
    let s = merge_subgraphs(&vec![
        subgraph_with("a", "http://a", vec![mk(vec!["Node"])]),
        subgraph_with("b", "http://b", vec![mk(vec!["Node", "Media"])]),
    ])
    .ok()
    .expect("composes");
    match &get_type(&s, "Book").def {
        TypeDef::Object(o) => {
            assert_eq!(o.implements_interfaces, vec!["Node", "Media"]);
            let impls = directives_of(&o.directives, "join__implements");
            assert_eq!(impls.len(), 3);
        }
        _ => panic!("Book is not an object"),
    }
}
