//! Alias checking on parsed field sets.

use supergraph_compose::document::Document;
use supergraph_compose::document::Subgraph;
use supergraph_compose::field_set::check_absence_of_aliases;
use supergraph_compose::field_set::FieldSelection;
use supergraph_compose::field_set::Selection;
use supergraph_compose::field_set::SelectionSet;
use supergraph_compose::merge::merge_subgraphs;

fn leaf_field(alias: Option<&str>, name: &str) -> Selection {
    Selection::Field(FieldSelection {
        alias: alias.map(|a| a.to_string()),
        name: name.to_string(),
        selection_set: None,
    })
}

fn int_field(
    name: &str,
    directives: Vec<supergraph_compose::document::Directive>,
) -> supergraph_compose::document::FieldDefinition {
    supergraph_compose::document::FieldDefinition {
        name: name.to_string(),
        description: None,
        arguments: vec![],
        ty: supergraph_compose::document::Ty::NonNullNamed("Int".to_string()),
        directives,
    }
}

fn requires_directive(fields: &str) -> supergraph_compose::document::Directive {
    supergraph_compose::document::Directive {
        name: "requires".to_string(),
        arguments: vec![supergraph_compose::document::Argument {
            name: "fields".to_string(),
            value: supergraph_compose::document::Value::Str(fields.to_string()),
        }],
    }
}

fn external_directive() -> supergraph_compose::document::Directive {
    supergraph_compose::document::Directive {
        name: "external".to_string(),
        arguments: vec![],
    }
}

fn query_subgraph(fields: Vec<supergraph_compose::document::FieldDefinition>) -> Subgraph {
    Subgraph {
        name: "S1".to_string(),
        url: "http://S1".to_string(),
        schema: Document {
            description: None,
            schema_directives: vec![],
            query_root: Some("Query".to_string()),
            mutation_root: None,
            subscription_root: None,
            types: vec![supergraph_compose::document::TypeEntry {
                name: "Query".to_string(),
                built_in: false,
                def: supergraph_compose::document::TypeDef::Object(
                    supergraph_compose::document::ObjectDef {
                        description: None,
                        directives: vec![],
                        implements_interfaces: vec![],
                        fields,
                    },
                ),
            }],
            directive_definitions: vec![],
        },
    }
}

#[test]
fn test_aliases_in_field_set() {
    // type Query { a: Int! @requires(fields: "r1: r")  r: Int! @external }
    let subgraph = query_subgraph(vec![
        int_field("a", vec![requires_directive("r1: r")]),
        int_field("r", vec![external_directive()]),
    ]);
    let supergraph = merge_subgraphs(&vec![subgraph]);
    assert!(supergraph.is_ok());
    // The field set "r1: r" parsed against Query holds one aliased field.
    let selection_set = SelectionSet {
        ty: "Query".to_string(),
        selections: vec![leaf_field(Some("r1"), "r")],
    };
    let err = check_absence_of_aliases(&selection_set)
        .map(|_| "Unexpected success")
        .expect_err("Expected alias error");
    assert_eq!(
        err.message(),
        r#"Cannot use alias "r1" in "r1: r": aliases are not currently supported in the used directive"#
    );
}

#[test]
fn test_aliases_in_field_set_via_build_federated_query_graph() {
    // NB: This tests multiple alias errors in the same field set.
    // type Query { a: Int! @requires(fields: "r1: r s q1: q")
    //              r: Int! @external  s: String! @external  q: String! @external }
    let subgraph = query_subgraph(vec![
        int_field("a", vec![requires_directive("r1: r s q1: q")]),
        int_field("r", vec![external_directive()]),
        int_field("s", vec![external_directive()]),
        int_field("q", vec![external_directive()]),
    ]);
    let supergraph = merge_subgraphs(&vec![subgraph]);
    assert!(supergraph.is_ok());
    // The field set "r1: r s q1: q" against Query holds two aliased fields.
    let selection_set = SelectionSet {
        ty: "Query".to_string(),
        selections: vec![
            leaf_field(Some("r1"), "r"),
            leaf_field(None, "s"),
            leaf_field(Some("q1"), "q"),
        ],
    };
    let err = check_absence_of_aliases(&selection_set)
        .map(|_| "Unexpected success")
        .expect_err("Expected alias error");
    assert_eq!(
        err.message(),
        r#"The following errors occurred:
  - Cannot use alias "r1" in "r1: r": aliases are not currently supported in the used directive
  - Cannot use alias "q1" in "q1: q": aliases are not currently supported in the used directive"#
    );
}

#[test]
fn alias_inside_inline_fragment_is_reported_alone() {
    let inner = SelectionSet {
        ty: "Product".to_string(),
        selections: vec![leaf_field(Some("x1"), "x")],
    };
    let selection_set = SelectionSet {
        ty: "Query".to_string(),
        selections: vec![
            leaf_field(Some("r1"), "r"),
            Selection::InlineFragment(supergraph_compose::field_set::InlineFragmentSelection {
                selection_set: inner,
            }),
        ],
    };
    let err = check_absence_of_aliases(&selection_set).expect_err("Expected alias error");
    // The fragment is checked as a unit, and its finding ends the walk.
    assert_eq!(
        err.message(),
        r#"Cannot use alias "x1" in "x1: x": aliases are not currently supported in the used directive"#
    );
}

#[test]
fn alias_free_field_set_passes() {
    let selection_set = SelectionSet {
        ty: "Query".to_string(),
        selections: vec![
            leaf_field(None, "id"),
            Selection::Field(FieldSelection {
                alias: None,
                name: "child".to_string(),
                selection_set: Some(SelectionSet {
                    ty: "Child".to_string(),
                    selections: vec![leaf_field(None, "leaf")],
                }),
            }),
        ],
    };
    assert!(check_absence_of_aliases(&selection_set).is_ok());
}
