//! The supergraph skeleton.  Before any subgraph content is merged, the
//! composed document is seeded with the `link` spec bootstrap (the
//! `link__Purpose` enum, the `link__Import` scalar and the `link` directive)
//! and the `join` spec vocabulary (the `join__FieldSet` scalar, the six
//! `join__*` directive definitions and the `join__Graph` enum carrying one
//! value per subgraph).  The installation order fixes the output order.

use vstd::prelude::*;
use crate::document::Argument;
use crate::document::ArgumentV;
use crate::document::Directive;
use crate::document::DirectiveDefinition;
use crate::document::DirectiveDefinitionV;
use crate::document::DirectiveLocation;
use crate::document::DirectiveV;
use crate::document::Document;
use crate::document::DocumentV;
use crate::document::EnumDef;
use crate::document::EnumDefV;
use crate::document::EnumValueDefinition;
use crate::document::EnumValueDefinitionV;
use crate::document::InputValue;
use crate::document::InputValueV;
use crate::document::ScalarDef;
use crate::document::ScalarDefV;
use crate::document::Subgraph;
use crate::document::SubgraphV;
use crate::document::Ty;
use crate::document::TyV;
use crate::document::TypeDef;
use crate::document::TypeDefV;
use crate::document::TypeEntry;
use crate::document::TypeEntryV;
use crate::document::Value;
use crate::document::ValueV;

verus! {

/// An argument declaration with a plain named type and nothing else.
pub open spec fn input_value_named_v(name: Seq<char>, tyname: Seq<char>) -> InputValueV {
    InputValueV {
        name: name,
        description: None,
        ty: TyV::Named(tyname),
        default_value: None,
        directives: Seq::empty(),
    }
}

/// An argument declaration with a non-null named type.
pub open spec fn input_value_non_null_v(name: Seq<char>, tyname: Seq<char>) -> InputValueV {
    InputValueV {
        name: name,
        description: None,
        ty: TyV::NonNullNamed(tyname),
        default_value: None,
        directives: Seq::empty(),
    }
}

/// A `Boolean!` argument declaration with a boolean default.
pub open spec fn input_value_bool_default_v(name: Seq<char>, default: bool) -> InputValueV {
    InputValueV {
        name: name,
        description: None,
        ty: TyV::NonNullNamed("Boolean"@),
        default_value: Some(ValueV::Boolean(default)),
        directives: Seq::empty(),
    }
}

fn input_value_named(name: &str, tyname: &str) -> (r: InputValue)
    ensures
        r.deep_view() == input_value_named_v(name@, tyname@),
{
    InputValue {
        name: name.to_owned(),
        description: None,
        ty: Ty::Named(tyname.to_owned()),
        default_value: None,
        directives: Vec::new(),
    }
}

fn input_value_non_null(name: &str, tyname: &str) -> (r: InputValue)
    ensures
        r.deep_view() == input_value_non_null_v(name@, tyname@),
{
    InputValue {
        name: name.to_owned(),
        description: None,
        ty: Ty::NonNullNamed(tyname.to_owned()),
        default_value: None,
        directives: Vec::new(),
    }
}

fn input_value_bool_default(name: &str, default: bool) -> (r: InputValue)
    ensures
        r.deep_view() == input_value_bool_default_v(name@, default),
{
    InputValue {
        name: name.to_owned(),
        description: None,
        ty: Ty::NonNullNamed("Boolean".to_owned()),
        default_value: Some(Value::Boolean(default)),
        directives: Vec::new(),
    }
}

/// `directive @link(url: String, as: String, for: link__Purpose,
/// import: [link__Import]) repeatable on SCHEMA`
pub open spec fn link_directive_definition_v() -> DirectiveDefinitionV {
    DirectiveDefinitionV {
        name: "link"@,
        description: None,
        arguments: seq![
            input_value_named_v("url"@, "String"@),
            input_value_named_v("as"@, "String"@),
            input_value_named_v("for"@, "link__Purpose"@),
            InputValueV {
                name: "import"@,
                description: None,
                ty: TyV::List(Box::new(TyV::Named("link__Import"@))),
                default_value: None,
                directives: Seq::empty(),
            },
        ],
        repeatable: true,
        locations: seq![DirectiveLocation::Schema],
    }
}

pub fn link_directive_definition() -> (r: DirectiveDefinition)
    ensures
        r.deep_view() == link_directive_definition_v(),
{
    let import_arg = InputValue {
        name: "import".to_owned(),
        description: None,
        ty: Ty::List(Box::new(Ty::Named("link__Import".to_owned()))),
        default_value: None,
        directives: Vec::new(),
    };
    let r = DirectiveDefinition {
        name: "link".to_owned(),
        description: None,
        arguments: vec![
            input_value_named("url", "String"),
            input_value_named("as", "String"),
            input_value_named("for", "link__Purpose"),
            import_arg,
        ],
        repeatable: true,
        locations: vec![DirectiveLocation::Schema],
    };
    proof {
        reveal_with_fuel(crate::document::ty_view, 3);
        assert(r.deep_view().arguments =~~= link_directive_definition_v().arguments);
        assert(r.deep_view().locations =~~= link_directive_definition_v().locations);
        assert(r.deep_view() =~~= link_directive_definition_v());
    }
    r
}

/// The `link__Purpose` enum with its `SECURITY` and `EXECUTION` values.
pub open spec fn link_purpose_enum_entry_v() -> TypeEntryV {
    TypeEntryV {
        name: "link__Purpose"@,
        built_in: false,
        def: TypeDefV::Enum(
            EnumDefV {
                description: None,
                directives: Seq::empty(),
                values: seq![
                    EnumValueDefinitionV {
                        value: "SECURITY"@,
                        description: Some(
                            "SECURITY features provide metadata necessary to securely resolve fields."@,
                        ),
                        directives: Seq::empty(),
                    },
                    EnumValueDefinitionV {
                        value: "EXECUTION"@,
                        description: Some(
                            "EXECUTION features provide metadata necessary for operation execution."@,
                        ),
                        directives: Seq::empty(),
                    },
                ],
            },
        ),
    }
}

/// Builds the `link__Purpose` enum definition.
pub fn link_purpose_enum_type() -> (r: TypeEntry)
    ensures
        r.deep_view() == link_purpose_enum_entry_v(),
{
    let security = EnumValueDefinition {
        value: "SECURITY".to_owned(),
        description: Some(
            "SECURITY features provide metadata necessary to securely resolve fields.".to_owned(),
        ),
        directives: Vec::new(),
    };
    let execution = EnumValueDefinition {
        value: "EXECUTION".to_owned(),
        description: Some(
            "EXECUTION features provide metadata necessary for operation execution.".to_owned(),
        ),
        directives: Vec::new(),
    };
    let r = TypeEntry {
        name: "link__Purpose".to_owned(),
        built_in: false,
        def: TypeDef::Enum(
            EnumDef { description: None, directives: Vec::new(), values: vec![security, execution] },
        ),
    };
    proof {
        assert(r.deep_view().def->Enum_0.values =~~= link_purpose_enum_entry_v().def->Enum_0.values);
        assert(r.deep_view().def->Enum_0 =~~= link_purpose_enum_entry_v().def->Enum_0);
        assert(r.deep_view() =~~= link_purpose_enum_entry_v());
    }
    r
}

/// A scalar type entry with no description and no directives.
pub open spec fn plain_scalar_entry_v(name: Seq<char>) -> TypeEntryV {
    TypeEntryV {
        name: name,
        built_in: false,
        def: TypeDefV::Scalar(ScalarDefV { description: None, directives: Seq::empty() }),
    }
}

fn plain_scalar_entry(name: &str) -> (r: TypeEntry)
    ensures
        r.deep_view() == plain_scalar_entry_v(name@),
{
    let r = TypeEntry {
        name: name.to_owned(),
        built_in: false,
        def: TypeDef::Scalar(ScalarDef { description: None, directives: Vec::new() }),
    };
    proof {
        assert(r.deep_view().def->Scalar_0 =~~= plain_scalar_entry_v(name@).def->Scalar_0);
        assert(r.deep_view() =~~= plain_scalar_entry_v(name@));
    }
    r
}

/// The `@link(url: "https://specs.apollo.dev/link/v1.0")` application.
pub open spec fn link_spec_schema_directive_v() -> DirectiveV {
    DirectiveV {
        name: "link"@,
        arguments: seq![
            ArgumentV { name: "url"@, value: ValueV::Str("https://specs.apollo.dev/link/v1.0"@) },
        ],
    }
}

/// The `@link(url: "https://specs.apollo.dev/join/v0.3", for: EXECUTION)`
/// application.
pub open spec fn join_spec_schema_directive_v() -> DirectiveV {
    DirectiveV {
        name: "link"@,
        arguments: seq![
            ArgumentV { name: "url"@, value: ValueV::Str("https://specs.apollo.dev/join/v0.3"@) },
            ArgumentV { name: "for"@, value: ValueV::Enum("EXECUTION"@) },
        ],
    }
}

/// The document a composition starts from, before the bootstrap runs.
pub open spec fn empty_document_v() -> DocumentV {
    DocumentV {
        description: None,
        schema_directives: Seq::empty(),
        query_root: None,
        mutation_root: None,
        subscription_root: None,
        types: Seq::empty(),
        directive_definitions: Seq::empty(),
    }
}

/// Returns an empty supergraph document, ready for the bootstrap.
pub fn new_supergraph() -> (r: Document)
    ensures
        r.deep_view() == empty_document_v(),
{
    let r = Document {
        description: None,
        schema_directives: Vec::new(),
        query_root: None,
        mutation_root: None,
        subscription_root: None,
        types: Vec::new(),
        directive_definitions: Vec::new(),
    };
    proof {
        assert(r.deep_view() =~~= empty_document_v());
    }
    r
}

/// What installing the `link` spec bootstrap adds to a document.
pub open spec fn with_core_feature_link_v(d: DocumentV) -> DocumentV {
    DocumentV {
        schema_directives: d.schema_directives.push(link_spec_schema_directive_v()),
        types: d.types + seq![link_purpose_enum_entry_v(), plain_scalar_entry_v("link__Import"@)],
        directive_definitions: d.directive_definitions.push(link_directive_definition_v()),
        ..d
    }
}

/// Installs the `link` spec bootstrap: the `@link` application on the schema
/// definition, the `link__Purpose` enum, the `link__Import` scalar, and the
/// `link` directive definition.
pub fn add_core_feature_link(supergraph: &mut Document)
    ensures
        final(supergraph).deep_view() == with_core_feature_link_v(old(supergraph).deep_view()),
{
    let link_application = Directive {
        name: "link".to_owned(),
        arguments: vec![
            Argument {
                name: "url".to_owned(),
                value: Value::Str("https://specs.apollo.dev/link/v1.0".to_owned()),
            },
        ],
    };
    proof {
        assert(link_application.deep_view().arguments =~~= link_spec_schema_directive_v().arguments);
        assert(link_application.deep_view() =~~= link_spec_schema_directive_v());
    }
    supergraph.schema_directives.push(link_application);
    supergraph.types.push(link_purpose_enum_type());
    supergraph.types.push(plain_scalar_entry("link__Import"));
    supergraph.directive_definitions.push(link_directive_definition());
    proof {
        assert(supergraph.deep_view().schema_directives =~~= with_core_feature_link_v(
            old(supergraph).deep_view(),
        ).schema_directives);
        assert(supergraph.deep_view().types =~~= with_core_feature_link_v(
            old(supergraph).deep_view(),
        ).types);
        assert(supergraph.deep_view().directive_definitions =~~= with_core_feature_link_v(
            old(supergraph).deep_view(),
        ).directive_definitions);
        assert(supergraph.deep_view() =~~= with_core_feature_link_v(old(supergraph).deep_view()));
    }
}

/// `directive @join__graph(name: String!, url: String!) on ENUM_VALUE`
pub open spec fn join_graph_directive_definition_v() -> DirectiveDefinitionV {
    DirectiveDefinitionV {
        name: "join__graph"@,
        description: None,
        arguments: seq![
            input_value_non_null_v("name"@, "String"@),
            input_value_non_null_v("url"@, "String"@),
        ],
        repeatable: false,
        locations: seq![DirectiveLocation::EnumValue],
    }
}

pub fn join_graph_directive_definition() -> (r: DirectiveDefinition)
    ensures
        r.deep_view() == join_graph_directive_definition_v(),
{
    let r = DirectiveDefinition {
        name: "join__graph".to_owned(),
        description: None,
        arguments: vec![
            input_value_non_null("name", "String"),
            input_value_non_null("url", "String"),
        ],
        repeatable: false,
        locations: vec![DirectiveLocation::EnumValue],
    };
    proof {
        assert(r.deep_view().arguments =~~= join_graph_directive_definition_v().arguments);
        assert(r.deep_view().locations =~~= join_graph_directive_definition_v().locations);
        assert(r.deep_view() =~~= join_graph_directive_definition_v());
    }
    r
}

/// `directive @join__type(graph: join__Graph!, key: join__FieldSet,
/// extension: Boolean! = false, resolvable: Boolean! = true,
/// isInterfaceObject: Boolean! = false) repeatable on ENUM | INPUT_OBJECT |
/// INTERFACE | OBJECT | SCALAR | UNION`
pub open spec fn join_type_directive_definition_v() -> DirectiveDefinitionV {
    DirectiveDefinitionV {
        name: "join__type"@,
        description: None,
        arguments: seq![
            input_value_non_null_v("graph"@, "join__Graph"@),
            input_value_named_v("key"@, "join__FieldSet"@),
            input_value_bool_default_v("extension"@, false),
            input_value_bool_default_v("resolvable"@, true),
            input_value_bool_default_v("isInterfaceObject"@, false),
        ],
        repeatable: true,
        locations: seq![
            DirectiveLocation::Enum,
            DirectiveLocation::InputObject,
            DirectiveLocation::Interface,
            DirectiveLocation::Object,
            DirectiveLocation::Scalar,
            DirectiveLocation::Union,
        ],
    }
}

pub fn join_type_directive_definition() -> (r: DirectiveDefinition)
    ensures
        r.deep_view() == join_type_directive_definition_v(),
{
    let r = DirectiveDefinition {
        name: "join__type".to_owned(),
        description: None,
        arguments: vec![
            input_value_non_null("graph", "join__Graph"),
            input_value_named("key", "join__FieldSet"),
            input_value_bool_default("extension", false),
            input_value_bool_default("resolvable", true),
            input_value_bool_default("isInterfaceObject", false),
        ],
        repeatable: true,
        locations: vec![
            DirectiveLocation::Enum,
            DirectiveLocation::InputObject,
            DirectiveLocation::Interface,
            DirectiveLocation::Object,
            DirectiveLocation::Scalar,
            DirectiveLocation::Union,
        ],
    };
    proof {
        assert(r.deep_view().arguments =~~= join_type_directive_definition_v().arguments);
        assert(r.deep_view().locations =~~= join_type_directive_definition_v().locations);
        assert(r.deep_view() =~~= join_type_directive_definition_v());
    }
    r
}

/// `directive @join__field(graph: join__Graph, requires: join__FieldSet,
/// provides: join__FieldSet, type: String, external: Boolean,
/// override: String, usedOverridden: Boolean) repeatable on
/// FIELD_DEFINITION | INPUT_FIELD_DEFINITION`
pub open spec fn join_field_directive_definition_v() -> DirectiveDefinitionV {
    DirectiveDefinitionV {
        name: "join__field"@,
        description: None,
        arguments: seq![
            input_value_named_v("graph"@, "join__Graph"@),
            input_value_named_v("requires"@, "join__FieldSet"@),
            input_value_named_v("provides"@, "join__FieldSet"@),
            input_value_named_v("type"@, "String"@),
            input_value_named_v("external"@, "Boolean"@),
            input_value_named_v("override"@, "String"@),
            input_value_named_v("usedOverridden"@, "Boolean"@),
        ],
        repeatable: true,
        locations: seq![
            DirectiveLocation::FieldDefinition,
            DirectiveLocation::InputFieldDefinition,
        ],
    }
}

pub fn join_field_directive_definition() -> (r: DirectiveDefinition)
    ensures
        r.deep_view() == join_field_directive_definition_v(),
{
    let r = DirectiveDefinition {
        name: "join__field".to_owned(),
        description: None,
        arguments: vec![
            input_value_named("graph", "join__Graph"),
            input_value_named("requires", "join__FieldSet"),
            input_value_named("provides", "join__FieldSet"),
            input_value_named("type", "String"),
            input_value_named("external", "Boolean"),
            input_value_named("override", "String"),
            input_value_named("usedOverridden", "Boolean"),
        ],
        repeatable: true,
        locations: vec![
            DirectiveLocation::FieldDefinition,
            DirectiveLocation::InputFieldDefinition,
        ],
    };
    proof {
        assert(r.deep_view().arguments =~~= join_field_directive_definition_v().arguments);
        assert(r.deep_view().locations =~~= join_field_directive_definition_v().locations);
        assert(r.deep_view() =~~= join_field_directive_definition_v());
    }
    r
}

/// `directive @join__implements(graph: join__Graph!, interface: String!)
/// repeatable on INTERFACE | OBJECT`
pub open spec fn join_implements_directive_definition_v() -> DirectiveDefinitionV {
    DirectiveDefinitionV {
        name: "join__implements"@,
        description: None,
        arguments: seq![
            input_value_non_null_v("graph"@, "join__Graph"@),
            input_value_non_null_v("interface"@, "String"@),
        ],
        repeatable: true,
        locations: seq![DirectiveLocation::Interface, DirectiveLocation::Object],
    }
}

pub fn join_implements_directive_definition() -> (r: DirectiveDefinition)
    ensures
        r.deep_view() == join_implements_directive_definition_v(),
{
    let r = DirectiveDefinition {
        name: "join__implements".to_owned(),
        description: None,
        arguments: vec![
            input_value_non_null("graph", "join__Graph"),
            input_value_non_null("interface", "String"),
        ],
        repeatable: true,
        locations: vec![DirectiveLocation::Interface, DirectiveLocation::Object],
    };
    proof {
        assert(r.deep_view().arguments =~~= join_implements_directive_definition_v().arguments);
        assert(r.deep_view().locations =~~= join_implements_directive_definition_v().locations);
        assert(r.deep_view() =~~= join_implements_directive_definition_v());
    }
    r
}

/// `directive @join__unionMember(graph: join__Graph!, member: String!)
/// repeatable on UNION`
pub open spec fn join_union_member_directive_definition_v() -> DirectiveDefinitionV {
    DirectiveDefinitionV {
        name: "join__unionMember"@,
        description: None,
        arguments: seq![
            input_value_non_null_v("graph"@, "join__Graph"@),
            input_value_non_null_v("member"@, "String"@),
        ],
        repeatable: true,
        locations: seq![DirectiveLocation::Union],
    }
}

pub fn join_union_member_directive_definition() -> (r: DirectiveDefinition)
    ensures
        r.deep_view() == join_union_member_directive_definition_v(),
{
    let r = DirectiveDefinition {
        name: "join__unionMember".to_owned(),
        description: None,
        arguments: vec![
            input_value_non_null("graph", "join__Graph"),
            input_value_non_null("member", "String"),
        ],
        repeatable: true,
        locations: vec![DirectiveLocation::Union],
    };
    proof {
        assert(r.deep_view().arguments =~~= join_union_member_directive_definition_v().arguments);
        assert(r.deep_view().locations =~~= join_union_member_directive_definition_v().locations);
        assert(r.deep_view() =~~= join_union_member_directive_definition_v());
    }
    r
}

/// `directive @join__enumValue(graph: join__Graph!) repeatable on ENUM_VALUE`
pub open spec fn join_enum_value_directive_definition_v() -> DirectiveDefinitionV {
    DirectiveDefinitionV {
        name: "join__enumValue"@,
        description: None,
        arguments: seq![input_value_non_null_v("graph"@, "join__Graph"@)],
        repeatable: true,
        locations: seq![DirectiveLocation::EnumValue],
    }
}

pub fn join_enum_value_directive_definition() -> (r: DirectiveDefinition)
    ensures
        r.deep_view() == join_enum_value_directive_definition_v(),
{
    let r = DirectiveDefinition {
        name: "join__enumValue".to_owned(),
        description: None,
        arguments: vec![input_value_non_null("graph", "join__Graph")],
        repeatable: true,
        locations: vec![DirectiveLocation::EnumValue],
    };
    proof {
        assert(r.deep_view().arguments =~~= join_enum_value_directive_definition_v().arguments);
        assert(r.deep_view().locations =~~= join_enum_value_directive_definition_v().locations);
        assert(r.deep_view() =~~= join_enum_value_directive_definition_v());
    }
    r
}

/// The `@join__graph(name: ..., url: ...)` application carried by one
/// `join__Graph` enum value.
pub open spec fn join_graph_applied_directive_v(name: Seq<char>, url: Seq<char>) -> DirectiveV {
    DirectiveV {
        name: "join__graph"@,
        arguments: seq![
            ArgumentV { name: "name"@, value: ValueV::Str(name) },
            ArgumentV { name: "url"@, value: ValueV::Str(url) },
        ],
    }
}

/// One `join__Graph` enum value for a subgraph.
pub open spec fn join_graph_enum_value_v(sub: SubgraphV, token: Seq<char>) -> EnumValueDefinitionV {
    EnumValueDefinitionV {
        value: token,
        description: None,
        directives: seq![join_graph_applied_directive_v(sub.name, sub.url)],
    }
}

/// The index of the enum value with the given name, or `-1`.
pub open spec fn find_enum_value(values: Seq<EnumValueDefinitionV>, name: Seq<char>) -> int
    decreases values.len(),
{
    if values.len() == 0 {
        -1
    } else if values[0].value == name {
        0
    } else {
        let r = find_enum_value(values.drop_first(), name);
        if r == -1 {
            -1
        } else {
            r + 1
        }
    }
}

/// What `find_enum_value` returns: the first index with that name, or `-1`
/// when there is none.
pub broadcast proof fn lemma_find_enum_value(values: Seq<EnumValueDefinitionV>, name: Seq<char>)
    ensures
        -1 <= #[trigger] find_enum_value(values, name) < values.len(),
        find_enum_value(values, name) == -1 <==> (forall|k: int|
            0 <= k < values.len() ==> (#[trigger] values[k].value) != name),
        find_enum_value(values, name) >= 0 ==> values[find_enum_value(values, name)].value == name,
        find_enum_value(values, name) >= 0 ==> (forall|k: int|
            0 <= k < find_enum_value(values, name) ==> (#[trigger] values[k].value) != name),
    decreases values.len(),
{
    if values.len() > 0 {
        lemma_find_enum_value(values.drop_first(), name);
        assert(forall|k: int|
            1 <= k < values.len() ==> values[k] == #[trigger] values.drop_first()[k - 1]);
        if values[0].value != name {
            let r = find_enum_value(values.drop_first(), name);
            if r == -1 {
                assert forall|k: int| 0 <= k < values.len() implies (#[trigger] values[k].value)
                    != name by {
                    if k >= 1 {
                        assert(values.drop_first()[k - 1].value != name);
                    }
                }
            } else {
                assert(values[r + 1].value == name);
                assert forall|k: int| 0 <= k < r + 1 implies (#[trigger] values[k].value)
                    != name by {
                    if k >= 1 {
                        assert(values.drop_first()[k - 1].value != name);
                    }
                }
            }
        }
    }
}

/// The `join__Graph` values for the subgraphs in order: one per subgraph,
/// keyed by token; a repeated token replaces the value in place.
pub open spec fn join_graph_values_v(
    values: Seq<EnumValueDefinitionV>,
    subs: Seq<SubgraphV>,
    tokens: Seq<Seq<char>>,
) -> Seq<EnumValueDefinitionV>
    decreases subs.len(),
{
    if subs.len() == 0 || tokens.len() == 0 {
        values
    } else {
        let v = join_graph_enum_value_v(subs[0], tokens[0]);
        let j = find_enum_value(values, tokens[0]);
        let values1 = if j == -1 {
            values.push(v)
        } else {
            values.update(j, v)
        };
        join_graph_values_v(values1, subs.drop_first(), tokens.drop_first())
    }
}

/// The `join__Graph` enum entry for the subgraphs in order.
pub open spec fn join_graph_enum_entry_v(subs: Seq<SubgraphV>, tokens: Seq<Seq<char>>) -> TypeEntryV {
    TypeEntryV {
        name: "join__Graph"@,
        built_in: false,
        def: TypeDefV::Enum(
            EnumDefV {
                description: None,
                directives: Seq::empty(),
                values: join_graph_values_v(Seq::empty(), subs, tokens),
            },
        ),
    }
}

/// Builds the `join__Graph` enum with one value per subgraph, each carrying
/// `@join__graph(name: ..., url: ...)`.
#[verifier::loop_isolation(false)]
pub fn join_graph_enum_type(subgraphs: &Vec<&Subgraph>, tokens: &Vec<String>) -> (r: TypeEntry)
    requires
        subgraphs.len() == tokens.len(),
    ensures
        r.deep_view() == join_graph_enum_entry_v(subgraphs.deep_view(), tokens.deep_view()),
{
    let mut values: Vec<EnumValueDefinition> = Vec::new();
    proof {
        assert(values.deep_view() =~~= Seq::<EnumValueDefinitionV>::empty());
        assert(subgraphs.deep_view().skip(0) =~~= subgraphs.deep_view());
        assert(tokens.deep_view().skip(0) =~~= tokens.deep_view());
    }
    let mut i: usize = 0;
    while i < subgraphs.len()
        invariant
            0 <= i <= subgraphs.len(),
            join_graph_values_v(Seq::empty(), subgraphs.deep_view(), tokens.deep_view())
                == join_graph_values_v(
                values.deep_view(),
                subgraphs.deep_view().skip(i as int),
                tokens.deep_view().skip(i as int),
            ),
        decreases subgraphs.len() - i,
    {
        let s: &Subgraph = subgraphs[i];
        let applied = Directive {
            name: "join__graph".to_owned(),
            arguments: vec![
                Argument { name: "name".to_owned(), value: Value::Str(s.name.clone()) },
                Argument { name: "url".to_owned(), value: Value::Str(s.url.clone()) },
            ],
        };
        proof {
            assert(applied.deep_view().arguments =~~= join_graph_applied_directive_v(
                s.deep_view().name,
                s.deep_view().url,
            ).arguments);
            assert(applied.deep_view() =~~= join_graph_applied_directive_v(
                s.deep_view().name,
                s.deep_view().url,
            ));
        }
        let value = EnumValueDefinition {
            value: tokens[i].clone(),
            description: None,
            directives: vec![applied],
        };
        proof {
            assert(value.deep_view().directives =~~= join_graph_enum_value_v(
                s.deep_view(),
                tokens.deep_view()[i as int],
            ).directives);
            assert(value.deep_view() =~~= join_graph_enum_value_v(
                s.deep_view(),
                tokens.deep_view()[i as int],
            ));
        }
        let ghost vals_before = values.deep_view();
        let mut j: usize = 0;
        let mut found = false;
        while j < values.len() && !found
            invariant
                0 <= j <= values.len(),
                !found ==> (forall|k: int|
                    0 <= k < j ==> (#[trigger] vals_before[k].value) != tokens.deep_view()[i as int]),
                found ==> j < values.len(),
                found ==> vals_before[j as int].value == tokens.deep_view()[i as int],
                found ==> (forall|k: int|
                    0 <= k < j ==> (#[trigger] vals_before[k].value) != tokens.deep_view()[i as int]),
                values.deep_view() == vals_before,
            decreases (if found { 0int } else { 1int }), values.len() - j,
        {
            if crate::text::str_eq(values[j].value.as_str(), tokens[i].as_str()) {
                found = true;
            } else {
                j = j + 1;
            }
        }
        proof {
            broadcast use lemma_find_enum_value;

        }
        if found {
            let ghost jj = j as int;
            proof {
                assert(find_enum_value(vals_before, tokens.deep_view()[i as int]) == jj);
            }
            values.set(j, value);
            proof {
                assert(values.deep_view() =~~= vals_before.update(
                    jj,
                    join_graph_enum_value_v(s.deep_view(), tokens.deep_view()[i as int]),
                ));
            }
        } else {
            proof {
                assert(find_enum_value(vals_before, tokens.deep_view()[i as int]) == -1);
            }
            values.push(value);
            proof {
                assert(values.deep_view() =~~= vals_before.push(
                    join_graph_enum_value_v(s.deep_view(), tokens.deep_view()[i as int]),
                ));
            }
        }
        proof {
            assert(subgraphs.deep_view().skip(i as int).drop_first() =~~= subgraphs.deep_view().skip(
                i + 1,
            ));
            assert(tokens.deep_view().skip(i as int).drop_first() =~~= tokens.deep_view().skip(
                i + 1,
            ));
            assert(subgraphs.deep_view().skip(i as int)[0] == subgraphs.deep_view()[i as int]);
            assert(tokens.deep_view().skip(i as int)[0] == tokens.deep_view()[i as int]);
        }
        i = i + 1;
    }
    proof {
        assert(subgraphs.deep_view().skip(subgraphs.len() as int) =~~= Seq::<SubgraphV>::empty());
        assert(tokens.deep_view().skip(tokens.len() as int) =~~= Seq::<Seq<char>>::empty());
    }
    let r = TypeEntry {
        name: "join__Graph".to_owned(),
        built_in: false,
        def: TypeDef::Enum(EnumDef { description: None, directives: Vec::new(), values }),
    };
    proof {
        assert(r.deep_view().def->Enum_0 =~~= join_graph_enum_entry_v(
            subgraphs.deep_view(),
            tokens.deep_view(),
        ).def->Enum_0);
        assert(r.deep_view() =~~= join_graph_enum_entry_v(
            subgraphs.deep_view(),
            tokens.deep_view(),
        ));
    }
    r
}

/// What installing the `join` spec adds to a document: the `@link`
/// application, the `join__FieldSet` scalar, the six `join__*` directive
/// definitions, and the `join__Graph` enum.
pub open spec fn with_core_feature_join_v(
    d: DocumentV,
    subs: Seq<SubgraphV>,
    tokens: Seq<Seq<char>>,
) -> DocumentV {
    DocumentV {
        schema_directives: d.schema_directives.push(join_spec_schema_directive_v()),
        types: d.types + seq![
            plain_scalar_entry_v("join__FieldSet"@),
            join_graph_enum_entry_v(subs, tokens),
        ],
        directive_definitions: d.directive_definitions + seq![
            join_graph_directive_definition_v(),
            join_type_directive_definition_v(),
            join_field_directive_definition_v(),
            join_implements_directive_definition_v(),
            join_union_member_directive_definition_v(),
            join_enum_value_directive_definition_v(),
        ],
        ..d
    }
}

/// Installs the `join` spec vocabulary into the supergraph.
pub fn add_core_feature_join(
    supergraph: &mut Document,
    subgraphs: &Vec<&Subgraph>,
    tokens: &Vec<String>,
)
    requires
        subgraphs.len() == tokens.len(),
    ensures
        final(supergraph).deep_view() == with_core_feature_join_v(
            old(supergraph).deep_view(),
            subgraphs.deep_view(),
            tokens.deep_view(),
        ),
{
    let link_application = Directive {
        name: "link".to_owned(),
        arguments: vec![
            Argument {
                name: "url".to_owned(),
                value: Value::Str("https://specs.apollo.dev/join/v0.3".to_owned()),
            },
            Argument { name: "for".to_owned(), value: Value::Enum("EXECUTION".to_owned()) },
        ],
    };
    proof {
        assert(link_application.deep_view().arguments =~~= join_spec_schema_directive_v().arguments);
        assert(link_application.deep_view() =~~= join_spec_schema_directive_v());
    }
    supergraph.schema_directives.push(link_application);
    supergraph.types.push(plain_scalar_entry("join__FieldSet"));
    supergraph.directive_definitions.push(join_graph_directive_definition());
    supergraph.directive_definitions.push(join_type_directive_definition());
    supergraph.directive_definitions.push(join_field_directive_definition());
    supergraph.directive_definitions.push(join_implements_directive_definition());
    supergraph.directive_definitions.push(join_union_member_directive_definition());
    supergraph.directive_definitions.push(join_enum_value_directive_definition());
    supergraph.types.push(join_graph_enum_type(subgraphs, tokens));
    proof {
        let target = with_core_feature_join_v(
            old(supergraph).deep_view(),
            subgraphs.deep_view(),
            tokens.deep_view(),
        );
        assert(supergraph.deep_view().schema_directives =~~= target.schema_directives);
        assert(supergraph.deep_view().types =~~= target.types);
        assert(supergraph.deep_view().directive_definitions =~~= target.directive_definitions);
        assert(supergraph.deep_view() =~~= target);
    }
}

} // verus!
