//! The versioned `join` spec catalogue: looks the vocabulary's definitions
//! up in a composed schema and decodes typed arguments out of `join__*`
//! directive applications.  By the time these run the bootstrap is expected
//! to exist, so a missing definition is an internal error, not a
//! user-facing composition error.

use vstd::prelude::*;
use vstd::string::StringExecFns;
use crate::document::Directive;
use crate::document::DirectiveDefinition;
use crate::document::Document;
use crate::document::EnumDef;
use crate::document::TypeDef;
use crate::document::Value;
use crate::document::ValueV;
use crate::error::FederationError;
use crate::error::FederationErrorV;
use crate::error::SingleFederationError;
use crate::error::SingleFederationErrorV;
use crate::merge::arg_value;
use crate::merge::find_type;
use crate::merge::find_directive_definition;
use crate::merge::find_type_entry;
use crate::merge::directive_arg_value;
use crate::text::str_eq;

verus! {

/// A `major.minor` version of the join spec.
#[derive(Clone, Copy, PartialEq, Eq, Structural, Debug)]
pub struct Version {
    pub major: u64,
    pub minor: u64,
}

/// Whether `a` comes before `b`.
pub open spec fn version_lt(a: Version, b: Version) -> bool {
    a.major < b.major || (a.major == b.major && a.minor < b.minor)
}

impl Version {
    /// Whether this version comes before the other.
    pub fn lt(&self, other: &Version) -> (r: bool)
        ensures
            r == version_lt(*self, *other),
    {
        self.major < other.major || (self.major == other.major && self.minor < other.minor)
    }
}

/// Who published a spec and under which name.
pub struct Identity {
    pub domain: String,
    pub name: String,
}

/// A versioned spec URL.
pub struct Url {
    pub identity: Identity,
    pub version: Version,
}

/// One version of the join spec.
pub struct JoinSpecDefinition {
    pub url: Url,
}

/// The internal error raised when a join spec element should exist in the
/// schema and does not.
pub open spec fn missing_join_spec_error_v() -> FederationErrorV {
    FederationErrorV::Single(
        SingleFederationErrorV::Internal {
            message: "Unexpectedly could not find join spec in schema"@,
        },
    )
}

fn missing_join_spec_error() -> (r: FederationError)
    ensures
        r.deep_view() == missing_join_spec_error_v(),
{
    FederationError::Single(
        SingleFederationError::Internal {
            message: "Unexpectedly could not find join spec in schema".to_owned(),
        },
    )
}

impl JoinSpecDefinition {
    /// Returns the catalogue entry for one version of the join spec.
    pub fn new(version: Version) -> (r: JoinSpecDefinition)
        ensures
            r.url.version == version,
            r.url.identity.domain@ == "https://specs.apollo.dev"@,
            r.url.identity.name@ == "join"@,
    {
        JoinSpecDefinition {
            url: Url {
                identity: Identity {
                    domain: "https://specs.apollo.dev".to_owned(),
                    name: "join".to_owned(),
                },
                version,
            },
        }
    }

    /// The spec's URL.
    pub fn url(&self) -> (r: &Url)
        ensures
            r == &self.url,
    {
        &self.url
    }

    /// The spec's version.
    pub fn version(&self) -> (r: Version)
        ensures
            r == self.url.version,
    {
        self.url.version
    }

    /// Looks up the `join__Graph` enum, which composition installed under
    /// the spec's default name prefix.
    pub fn graph_enum_definition<'a>(&self, schema: &'a Document) -> (r: Result<
        &'a EnumDef,
        FederationError,
    >)
        ensures
            (match r {
                Ok(e) => {
                    let i = find_type(schema.deep_view().types, "join__Graph"@);
                    i >= 0 && schema.deep_view().types[i].def is Enum
                        && e.deep_view() == schema.deep_view().types[i].def->Enum_0
                },
                Err(e) => (find_type(schema.deep_view().types, "join__Graph"@) == -1
                    && e.deep_view() == missing_join_spec_error_v()) || (find_type(
                    schema.deep_view().types,
                    "join__Graph"@,
                ) >= 0 && !(schema.deep_view().types[find_type(
                    schema.deep_view().types,
                    "join__Graph"@,
                )].def is Enum) && e.deep_view() == internal_error_v(
                    "Unexpectedly found non-enum for join spec's \"Graph\" enum definition"@,
                )),
            }),
    {
        match find_type_entry(&schema.types, "join__Graph") {
            Some(i) => {
                match &schema.types[i].def {
                    TypeDef::Enum(e) => Ok(e),
                    _ => Err(
                        FederationError::Single(
                            SingleFederationError::Internal {
                                message:
                                    "Unexpectedly found non-enum for join spec's \"Graph\" enum definition".to_owned(),
                            },
                        ),
                    ),
                }
            },
            None => Err(missing_join_spec_error()),
        }
    }

    /// Looks up one of the spec's directive definitions by its installed
    /// name.
    #[verifier::loop_isolation(false)]
    fn directive_definition<'a>(&self, schema: &'a Document, name: &str) -> (r: Result<
        &'a DirectiveDefinition,
        FederationError,
    >)
        ensures
            (match r {
                Ok(d) => {
                    let i = find_directive_definition(
                        schema.deep_view().directive_definitions,
                        name@,
                    );
                    i >= 0 && d.deep_view() == schema.deep_view().directive_definitions[i]
                },
                Err(e) => find_directive_definition(
                    schema.deep_view().directive_definitions,
                    name@,
                ) == -1 && e.deep_view() == missing_join_spec_error_v(),
            }),
    {
        let defs = &schema.directive_definitions;
        let mut i: usize = 0;
        while i < defs.len()
            invariant
                0 <= i <= defs.len(),
                forall|k: int| 0 <= k < i ==> (#[trigger] defs.deep_view()[k].name) != name@,
            decreases defs.len() - i,
        {
            if str_eq(defs[i].name.as_str(), name) {
                proof {
                    assert(schema.deep_view().directive_definitions == defs.deep_view());
                    crate::merge::lemma_find_directive_definition(defs.deep_view(), name@);
                    assert(defs.deep_view()[i as int].name == name@);
                    assert(find_directive_definition(defs.deep_view(), name@) == i as int);
                }
                return Ok(&defs[i]);
            }
            proof {
                assert(defs.deep_view()[i as int].name != name@);
            }
            i = i + 1;
        }
        proof {
            assert(schema.deep_view().directive_definitions == defs.deep_view());
            crate::merge::lemma_find_directive_definition(defs.deep_view(), name@);
        }
        Err(missing_join_spec_error())
    }

    /// Looks up `@join__graph`.
    pub fn graph_directive_definition<'a>(&self, schema: &'a Document) -> (r: Result<
        &'a DirectiveDefinition,
        FederationError,
    >)
        ensures
            (match r {
                Ok(d) => {
                    let i = find_directive_definition(
                        schema.deep_view().directive_definitions,
                        "join__graph"@,
                    );
                    i >= 0 && d.deep_view() == schema.deep_view().directive_definitions[i]
                },
                Err(e) => find_directive_definition(
                    schema.deep_view().directive_definitions,
                    "join__graph"@,
                ) == -1 && e.deep_view() == missing_join_spec_error_v(),
            }),
    {
        self.directive_definition(schema, "join__graph")
    }

    /// Looks up `@join__type`.
    pub fn type_directive_definition<'a>(&self, schema: &'a Document) -> (r: Result<
        &'a DirectiveDefinition,
        FederationError,
    >)
        ensures
            (match r {
                Ok(d) => {
                    let i = find_directive_definition(
                        schema.deep_view().directive_definitions,
                        "join__type"@,
                    );
                    i >= 0 && d.deep_view() == schema.deep_view().directive_definitions[i]
                },
                Err(e) => find_directive_definition(
                    schema.deep_view().directive_definitions,
                    "join__type"@,
                ) == -1 && e.deep_view() == missing_join_spec_error_v(),
            }),
    {
        self.directive_definition(schema, "join__type")
    }

    /// Looks up `@join__field`.
    pub fn field_directive_definition<'a>(&self, schema: &'a Document) -> (r: Result<
        &'a DirectiveDefinition,
        FederationError,
    >)
        ensures
            (match r {
                Ok(d) => {
                    let i = find_directive_definition(
                        schema.deep_view().directive_definitions,
                        "join__field"@,
                    );
                    i >= 0 && d.deep_view() == schema.deep_view().directive_definitions[i]
                },
                Err(e) => find_directive_definition(
                    schema.deep_view().directive_definitions,
                    "join__field"@,
                ) == -1 && e.deep_view() == missing_join_spec_error_v(),
            }),
    {
        self.directive_definition(schema, "join__field")
    }

    /// Looks up `@join__implements`; the directive only exists from spec
    /// version 0.2 on.
    pub fn implements_directive_definition<'a>(&self, schema: &'a Document) -> (r: Result<
        Option<&'a DirectiveDefinition>,
        FederationError,
    >)
        ensures
            version_lt(self.url.version, (Version { major: 0, minor: 2 })) <==> (r matches Ok(d)
                && d is None),
            (match r {
                Ok(d) => (match d {
                    Some(dd) => {
                        let i = find_directive_definition(
                            schema.deep_view().directive_definitions,
                            "join__implements"@,
                        );
                        i >= 0 && dd.deep_view() == schema.deep_view().directive_definitions[i]
                    },
                    None => true,
                }),
                Err(e) => !version_lt(self.url.version, (Version { major: 0, minor: 2 }))
                    && find_directive_definition(
                    schema.deep_view().directive_definitions,
                    "join__implements"@,
                ) == -1 && e.deep_view() == missing_join_spec_error_v(),
            }),
    {
        if self.url.version.lt(&(Version { major: 0, minor: 2 })) {
            return Ok(None);
        }
        match self.directive_definition(schema, "join__implements") {
            Ok(d) => Ok(Some(d)),
            Err(e) => Err(e),
        }
    }

    /// Looks up `@join__unionMember`; the directive only exists from spec
    /// version 0.3 on.
    pub fn union_member_directive_definition<'a>(&self, schema: &'a Document) -> (r: Result<
        Option<&'a DirectiveDefinition>,
        FederationError,
    >)
        ensures
            version_lt(self.url.version, (Version { major: 0, minor: 3 })) <==> (r matches Ok(d)
                && d is None),
            (match r {
                Ok(d) => (match d {
                    Some(dd) => {
                        let i = find_directive_definition(
                            schema.deep_view().directive_definitions,
                            "join__unionMember"@,
                        );
                        i >= 0 && dd.deep_view() == schema.deep_view().directive_definitions[i]
                    },
                    None => true,
                }),
                Err(e) => !version_lt(self.url.version, (Version { major: 0, minor: 3 }))
                    && find_directive_definition(
                    schema.deep_view().directive_definitions,
                    "join__unionMember"@,
                ) == -1 && e.deep_view() == missing_join_spec_error_v(),
            }),
    {
        if self.url.version.lt(&(Version { major: 0, minor: 3 })) {
            return Ok(None);
        }
        match self.directive_definition(schema, "join__unionMember") {
            Ok(d) => Ok(Some(d)),
            Err(e) => Err(e),
        }
    }

    /// Looks up `@join__enumValue`; the directive only exists from spec
    /// version 0.3 on.
    pub fn enum_value_directive_definition<'a>(&self, schema: &'a Document) -> (r: Result<
        Option<&'a DirectiveDefinition>,
        FederationError,
    >)
        ensures
            version_lt(self.url.version, (Version { major: 0, minor: 3 })) <==> (r matches Ok(d)
                && d is None),
            (match r {
                Ok(d) => (match d {
                    Some(dd) => {
                        let i = find_directive_definition(
                            schema.deep_view().directive_definitions,
                            "join__enumValue"@,
                        );
                        i >= 0 && dd.deep_view() == schema.deep_view().directive_definitions[i]
                    },
                    None => true,
                }),
                Err(e) => !version_lt(self.url.version, (Version { major: 0, minor: 3 }))
                    && find_directive_definition(
                    schema.deep_view().directive_definitions,
                    "join__enumValue"@,
                ) == -1 && e.deep_view() == missing_join_spec_error_v(),
            }),
    {
        if self.url.version.lt(&(Version { major: 0, minor: 3 })) {
            return Ok(None);
        }
        match self.directive_definition(schema, "join__enumValue") {
            Ok(d) => Ok(Some(d)),
            Err(e) => Err(e),
        }
    }
}


} // verus!

verus! {

// ---------------------------------------------------------------------------
// Argument decoding
// ---------------------------------------------------------------------------

/// The message for a required argument that is absent.
pub open spec fn msg_missing_argument(name: Seq<char>) -> Seq<char> {
    "Required argument \""@ + name + "\" is missing"@
}

/// The message for an argument that should hold a string.
pub open spec fn msg_not_string(name: Seq<char>) -> Seq<char> {
    "Argument \""@ + name + "\" is not a string"@
}

/// The message for an argument that should hold an enum value.
pub open spec fn msg_not_enum(name: Seq<char>) -> Seq<char> {
    "Argument \""@ + name + "\" is not an enum value"@
}

/// The message for an argument that should hold a boolean.
pub open spec fn msg_not_boolean(name: Seq<char>) -> Seq<char> {
    "Argument \""@ + name + "\" is not a boolean"@
}

/// The message for an argument that should hold a list.
pub open spec fn msg_not_list(name: Seq<char>) -> Seq<char> {
    "Argument \""@ + name + "\" is not a list"@
}

/// An internal error with the given message.
pub open spec fn internal_error_v(message: Seq<char>) -> FederationErrorV {
    FederationErrorV::Single(SingleFederationErrorV::Internal { message: message })
}

/// A required string argument: present and a string, or an error.
pub open spec fn required_string_arg_v(
    d: crate::document::DirectiveV,
    name: Seq<char>,
) -> Result<Seq<char>, Seq<char>> {
    match arg_value(d, name) {
        Some(ValueV::Str(s)) => Ok(s),
        Some(v) => Err(msg_not_string(name)),
        None => Err(msg_missing_argument(name)),
    }
}

/// An optional string argument: absent or null counts as nothing.
pub open spec fn optional_string_arg_v(
    d: crate::document::DirectiveV,
    name: Seq<char>,
) -> Result<Option<Seq<char>>, Seq<char>> {
    match arg_value(d, name) {
        Some(ValueV::Str(s)) => Ok(Some(s)),
        Some(ValueV::Null) => Ok(None),
        Some(v) => Err(msg_not_string(name)),
        None => Ok(None),
    }
}

/// A required enum-value argument.
pub open spec fn required_enum_arg_v(
    d: crate::document::DirectiveV,
    name: Seq<char>,
) -> Result<Seq<char>, Seq<char>> {
    match arg_value(d, name) {
        Some(ValueV::Enum(s)) => Ok(s),
        Some(v) => Err(msg_not_enum(name)),
        None => Err(msg_missing_argument(name)),
    }
}

/// An optional enum-value argument.
pub open spec fn optional_enum_arg_v(
    d: crate::document::DirectiveV,
    name: Seq<char>,
) -> Result<Option<Seq<char>>, Seq<char>> {
    match arg_value(d, name) {
        Some(ValueV::Enum(s)) => Ok(Some(s)),
        Some(ValueV::Null) => Ok(None),
        Some(v) => Err(msg_not_enum(name)),
        None => Ok(None),
    }
}

/// An optional boolean argument.
pub open spec fn optional_boolean_arg_v(
    d: crate::document::DirectiveV,
    name: Seq<char>,
) -> Result<Option<bool>, Seq<char>> {
    match arg_value(d, name) {
        Some(ValueV::Boolean(b)) => Ok(Some(b)),
        Some(ValueV::Null) => Ok(None),
        Some(v) => Err(msg_not_boolean(name)),
        None => Ok(None),
    }
}

/// An optional list argument.
pub open spec fn optional_list_arg_v(
    d: crate::document::DirectiveV,
    name: Seq<char>,
) -> Result<Option<Seq<ValueV>>, Seq<char>> {
    match arg_value(d, name) {
        Some(ValueV::List(l)) => Ok(Some(l)),
        Some(ValueV::Null) => Ok(None),
        Some(v) => Err(msg_not_list(name)),
        None => Ok(None),
    }
}

fn internal_error_with(prefix: &str, name: &str, suffix: &str) -> (r: FederationError)
    ensures
        r.deep_view() == internal_error_v(prefix@ + name@ + suffix@),
{
    let mut message: String = prefix.to_owned();
    message.append(name);
    message.append(suffix);
    FederationError::Single(SingleFederationError::Internal { message })
}

/// Decodes a required string argument.
pub fn directive_required_string_argument(d: &Directive, name: &str) -> (r: Result<
    String,
    FederationError,
>)
    ensures
        (match r {
            Ok(s) => required_string_arg_v(d.deep_view(), name@) == Ok::<Seq<char>, Seq<char>>(s@),
            Err(e) => (required_string_arg_v(d.deep_view(), name@) matches Err(m)
                && e.deep_view() == internal_error_v(m)),
        }),
{
    match directive_arg_value(d, name) {
        Some(v) => match v {
            Value::Str(s) => Ok(s.clone()),
            _ => Err(internal_error_with("Argument \"", name, "\" is not a string")),
        },
        None => Err(internal_error_with("Required argument \"", name, "\" is missing")),
    }
}

/// Decodes an optional string argument; absent or null means none.
pub fn directive_optional_string_argument(d: &Directive, name: &str) -> (r: Result<
    Option<String>,
    FederationError,
>)
    ensures
        (match r {
            Ok(s) => optional_string_arg_v(d.deep_view(), name@) == Ok::<
                Option<Seq<char>>,
                Seq<char>,
            >(s.deep_view()),
            Err(e) => (optional_string_arg_v(d.deep_view(), name@) matches Err(m)
                && e.deep_view() == internal_error_v(m)),
        }),
{
    match directive_arg_value(d, name) {
        Some(v) => match v {
            Value::Str(s) => Ok(Some(s.clone())),
            Value::Null => Ok(None),
            _ => Err(internal_error_with("Argument \"", name, "\" is not a string")),
        },
        None => Ok(None),
    }
}

/// Decodes a required enum-value argument.
pub fn directive_required_enum_argument(d: &Directive, name: &str) -> (r: Result<
    String,
    FederationError,
>)
    ensures
        (match r {
            Ok(s) => required_enum_arg_v(d.deep_view(), name@) == Ok::<Seq<char>, Seq<char>>(s@),
            Err(e) => (required_enum_arg_v(d.deep_view(), name@) matches Err(m) && e.deep_view()
                == internal_error_v(m)),
        }),
{
    match directive_arg_value(d, name) {
        Some(v) => match v {
            Value::Enum(s) => Ok(s.clone()),
            _ => Err(internal_error_with("Argument \"", name, "\" is not an enum value")),
        },
        None => Err(internal_error_with("Required argument \"", name, "\" is missing")),
    }
}

/// Decodes an optional enum-value argument.
pub fn directive_optional_enum_argument(d: &Directive, name: &str) -> (r: Result<
    Option<String>,
    FederationError,
>)
    ensures
        (match r {
            Ok(s) => optional_enum_arg_v(d.deep_view(), name@) == Ok::<
                Option<Seq<char>>,
                Seq<char>,
            >(s.deep_view()),
            Err(e) => (optional_enum_arg_v(d.deep_view(), name@) matches Err(m) && e.deep_view()
                == internal_error_v(m)),
        }),
{
    match directive_arg_value(d, name) {
        Some(v) => match v {
            Value::Enum(s) => Ok(Some(s.clone())),
            Value::Null => Ok(None),
            _ => Err(internal_error_with("Argument \"", name, "\" is not an enum value")),
        },
        None => Ok(None),
    }
}

/// Decodes an optional boolean argument.
pub fn directive_optional_boolean_argument(d: &Directive, name: &str) -> (r: Result<
    Option<bool>,
    FederationError,
>)
    ensures
        (match r {
            Ok(b) => optional_boolean_arg_v(d.deep_view(), name@) == Ok::<
                Option<bool>,
                Seq<char>,
            >(b),
            Err(e) => (optional_boolean_arg_v(d.deep_view(), name@) matches Err(m)
                && e.deep_view() == internal_error_v(m)),
        }),
{
    match directive_arg_value(d, name) {
        Some(v) => match v {
            Value::Boolean(b) => Ok(Some(*b)),
            Value::Null => Ok(None),
            _ => Err(internal_error_with("Argument \"", name, "\" is not a boolean")),
        },
        None => Ok(None),
    }
}

/// The decoded arguments of one `@join__graph` application.
pub struct GraphDirectiveArguments {
    pub name: String,
    pub url: String,
}

/// The decoded arguments of one `@join__type` application, defaults
/// applied.
pub struct TypeDirectiveArguments {
    pub graph: String,
    pub key: Option<String>,
    pub extension: bool,
    pub resolvable: bool,
    pub is_interface_object: bool,
}

/// The decoded arguments of one `@join__implements` application.
pub struct ImplementsDirectiveArguments {
    pub graph: String,
    pub interface: String,
}

/// The decoded arguments of one `@join__unionMember` application.
pub struct UnionMemberDirectiveArguments {
    pub graph: String,
    pub member: String,
}

/// The decoded arguments of one `@join__enumValue` application.
pub struct EnumValueDirectiveArguments {
    pub graph: String,
}

impl JoinSpecDefinition {
    /// Decodes `@join__graph(name: ..., url: ...)`.
    pub fn graph_directive_arguments(&self, application: &Directive) -> (r: Result<
        GraphDirectiveArguments,
        FederationError,
    >)
        ensures
            (match r {
                Ok(a) => required_string_arg_v(application.deep_view(), "name"@) == Ok::<
                    Seq<char>,
                    Seq<char>,
                >(a.name@) && required_string_arg_v(application.deep_view(), "url"@) == Ok::<
                    Seq<char>,
                    Seq<char>,
                >(a.url@),
                Err(e) => (required_string_arg_v(application.deep_view(), "name"@) matches Err(m)
                    && e.deep_view() == internal_error_v(m)) || (required_string_arg_v(
                    application.deep_view(),
                    "name"@,
                ) is Ok && (required_string_arg_v(application.deep_view(), "url"@) matches Err(m)
                    && e.deep_view() == internal_error_v(m))),
            }),
    {
        let name = match directive_required_string_argument(application, "name") {
            Ok(s) => s,
            Err(e) => {
                return Err(e);
            },
        };
        let url = match directive_required_string_argument(application, "url") {
            Ok(s) => s,
            Err(e) => {
                return Err(e);
            },
        };
        Ok(GraphDirectiveArguments { name, url })
    }

    /// Decodes `@join__type(...)`: `extension`, `resolvable` and
    /// `isInterfaceObject` default to `false`, `true` and `false` when
    /// absent.
    pub fn type_directive_arguments(&self, application: &Directive) -> (r: Result<
        TypeDirectiveArguments,
        FederationError,
    >)
        ensures
            (match r {
                Ok(a) => {
                    &&& required_enum_arg_v(application.deep_view(), "graph"@) == Ok::<
                        Seq<char>,
                        Seq<char>,
                    >(a.graph@)
                    &&& optional_string_arg_v(application.deep_view(), "key"@) == Ok::<
                        Option<Seq<char>>,
                        Seq<char>,
                    >(a.key.deep_view())
                    &&& optional_boolean_arg_v(application.deep_view(), "extension"@) == Ok::<
                        Option<bool>,
                        Seq<char>,
                    >(if a.extension {
                        Some(true)
                    } else {
                        optional_boolean_arg_v(application.deep_view(), "extension"@)->Ok_0
                    })
                    &&& (match optional_boolean_arg_v(application.deep_view(), "extension"@) {
                        Ok(Some(b)) => a.extension == b,
                        Ok(None) => a.extension == false,
                        Err(m) => false,
                    })
                    &&& (match optional_boolean_arg_v(application.deep_view(), "resolvable"@) {
                        Ok(Some(b)) => a.resolvable == b,
                        Ok(None) => a.resolvable == true,
                        Err(m) => false,
                    })
                    &&& (match optional_boolean_arg_v(
                        application.deep_view(),
                        "isInterfaceObject"@,
                    ) {
                        Ok(Some(b)) => a.is_interface_object == b,
                        Ok(None) => a.is_interface_object == false,
                        Err(m) => false,
                    })
                },
                Err(e) => exists|m: Seq<char>|
                    e.deep_view() == internal_error_v(m) && ((required_enum_arg_v(
                        application.deep_view(),
                        "graph"@,
                    ) == Err::<Seq<char>, Seq<char>>(m)) || (optional_string_arg_v(
                        application.deep_view(),
                        "key"@,
                    ) == Err::<Option<Seq<char>>, Seq<char>>(m)) || (optional_boolean_arg_v(
                        application.deep_view(),
                        "extension"@,
                    ) == Err::<Option<bool>, Seq<char>>(m)) || (optional_boolean_arg_v(
                        application.deep_view(),
                        "resolvable"@,
                    ) == Err::<Option<bool>, Seq<char>>(m)) || (optional_boolean_arg_v(
                        application.deep_view(),
                        "isInterfaceObject"@,
                    ) == Err::<Option<bool>, Seq<char>>(m))),
            }),
    {
        let graph = match directive_required_enum_argument(application, "graph") {
            Ok(s) => s,
            Err(e) => {
                return Err(e);
            },
        };
        let key = match directive_optional_string_argument(application, "key") {
            Ok(s) => s,
            Err(e) => {
                return Err(e);
            },
        };
        let extension = match directive_optional_boolean_argument(application, "extension") {
            Ok(Some(b)) => b,
            Ok(None) => false,
            Err(e) => {
                return Err(e);
            },
        };
        let resolvable = match directive_optional_boolean_argument(application, "resolvable") {
            Ok(Some(b)) => b,
            Ok(None) => true,
            Err(e) => {
                return Err(e);
            },
        };
        let is_interface_object = match directive_optional_boolean_argument(
            application,
            "isInterfaceObject",
        ) {
            Ok(Some(b)) => b,
            Ok(None) => false,
            Err(e) => {
                return Err(e);
            },
        };
        Ok(TypeDirectiveArguments { graph, key, extension, resolvable, is_interface_object })
    }

    /// Decodes `@join__implements(graph: ..., interface: ...)`.
    pub fn implements_directive_arguments(&self, application: &Directive) -> (r: Result<
        ImplementsDirectiveArguments,
        FederationError,
    >)
        ensures
            (match r {
                Ok(a) => required_enum_arg_v(application.deep_view(), "graph"@) == Ok::<
                    Seq<char>,
                    Seq<char>,
                >(a.graph@) && required_string_arg_v(application.deep_view(), "interface"@) == Ok::<
                    Seq<char>,
                    Seq<char>,
                >(a.interface@),
                Err(e) => (required_enum_arg_v(application.deep_view(), "graph"@) matches Err(m)
                    && e.deep_view() == internal_error_v(m)) || (required_enum_arg_v(
                    application.deep_view(),
                    "graph"@,
                ) is Ok && (required_string_arg_v(application.deep_view(), "interface"@) matches Err(
                    m,
                ) && e.deep_view() == internal_error_v(m))),
            }),
    {
        let graph = match directive_required_enum_argument(application, "graph") {
            Ok(s) => s,
            Err(e) => {
                return Err(e);
            },
        };
        let interface = match directive_required_string_argument(application, "interface") {
            Ok(s) => s,
            Err(e) => {
                return Err(e);
            },
        };
        Ok(ImplementsDirectiveArguments { graph, interface })
    }

    /// Decodes `@join__unionMember(graph: ..., member: ...)`.
    pub fn union_member_directive_arguments(&self, application: &Directive) -> (r: Result<
        UnionMemberDirectiveArguments,
        FederationError,
    >)
        ensures
            (match r {
                Ok(a) => required_enum_arg_v(application.deep_view(), "graph"@) == Ok::<
                    Seq<char>,
                    Seq<char>,
                >(a.graph@) && required_string_arg_v(application.deep_view(), "member"@) == Ok::<
                    Seq<char>,
                    Seq<char>,
                >(a.member@),
                Err(e) => (required_enum_arg_v(application.deep_view(), "graph"@) matches Err(m)
                    && e.deep_view() == internal_error_v(m)) || (required_enum_arg_v(
                    application.deep_view(),
                    "graph"@,
                ) is Ok && (required_string_arg_v(application.deep_view(), "member"@) matches Err(m)
                    && e.deep_view() == internal_error_v(m))),
            }),
    {
        let graph = match directive_required_enum_argument(application, "graph") {
            Ok(s) => s,
            Err(e) => {
                return Err(e);
            },
        };
        let member = match directive_required_string_argument(application, "member") {
            Ok(s) => s,
            Err(e) => {
                return Err(e);
            },
        };
        Ok(UnionMemberDirectiveArguments { graph, member })
    }

    /// Decodes `@join__enumValue(graph: ...)`.
    pub fn enum_value_directive_arguments(&self, application: &Directive) -> (r: Result<
        EnumValueDirectiveArguments,
        FederationError,
    >)
        ensures
            (match r {
                Ok(a) => required_enum_arg_v(application.deep_view(), "graph"@) == Ok::<
                    Seq<char>,
                    Seq<char>,
                >(a.graph@),
                Err(e) => (required_enum_arg_v(application.deep_view(), "graph"@) matches Err(m)
                    && e.deep_view() == internal_error_v(m)),
            }),
    {
        let graph = match directive_required_enum_argument(application, "graph") {
            Ok(s) => s,
            Err(e) => {
                return Err(e);
            },
        };
        Ok(EnumValueDirectiveArguments { graph })
    }
}

} // verus!

verus! {

// ---------------------------------------------------------------------------
// `contextArguments` decoding
// ---------------------------------------------------------------------------

/// One entry of `@join__field`'s `contextArguments` list.
pub struct ContextArgument {
    pub name: String,
    pub type_: String,
    pub context: String,
    pub selection: String,
}

/// Ghost counterpart of [`ContextArgument`].
pub struct ContextArgumentV {
    pub name: Seq<char>,
    pub type_: Seq<char>,
    pub context: Seq<char>,
    pub selection: Seq<char>,
}

impl DeepView for ContextArgument {
    type V = ContextArgumentV;

    open spec fn deep_view(&self) -> ContextArgumentV {
        ContextArgumentV {
            name: self.name@,
            type_: self.type_@,
            context: self.context@,
            selection: self.selection@,
        }
    }
}

pub open spec fn msg_ctx_repeated(
    name: Seq<char>,
    value_text: Seq<char>,
    previous_text: Seq<char>,
) -> Seq<char> {
    "Input field \""@ + name + "\" in contextArguments is repeated with value \""@ + value_text
        + "\" (previous value was \""@ + previous_text + "\")"@
}

pub open spec fn msg_ctx_missing(name: Seq<char>) -> Seq<char> {
    "Input field \""@ + name + "\" is missing from contextArguments"@
}

pub open spec fn msg_ctx_not_string(name: Seq<char>) -> Seq<char> {
    "Input field \""@ + name + "\" in contextArguments is not a string"@
}

pub open spec fn msg_ctx_unknown(name: Seq<char>) -> Seq<char> {
    "Found unknown contextArguments input field \""@ + name + "\""@
}

pub open spec fn msg_ctx_not_object(value_text: Seq<char>) -> Seq<char> {
    "Item \""@ + value_text + "\" in contextArguments list is not an object"@
}

/// Walks a `contextArguments` object's fields into the four slots; a
/// repeated or unknown field is an error naming it.
pub open spec fn ctx_slots_v(
    fields: Seq<(Seq<char>, ValueV)>,
    name_slot: Option<ValueV>,
    type_slot: Option<ValueV>,
    context_slot: Option<ValueV>,
    selection_slot: Option<ValueV>,
) -> Result<(Option<ValueV>, Option<ValueV>, Option<ValueV>, Option<ValueV>), Seq<char>>
    decreases fields.len(),
{
    if fields.len() == 0 {
        Ok((name_slot, type_slot, context_slot, selection_slot))
    } else {
        let (fname, fval) = fields[0];
        if fname == "name"@ {
            if name_slot is Some {
                Err(
                    msg_ctx_repeated(
                        fname,
                        crate::document::render_value_v(fval),
                        crate::document::render_value_v(name_slot->0),
                    ),
                )
            } else {
                ctx_slots_v(
                    fields.drop_first(),
                    Some(fval),
                    type_slot,
                    context_slot,
                    selection_slot,
                )
            }
        } else if fname == "type"@ {
            if type_slot is Some {
                Err(
                    msg_ctx_repeated(
                        fname,
                        crate::document::render_value_v(fval),
                        crate::document::render_value_v(type_slot->0),
                    ),
                )
            } else {
                ctx_slots_v(
                    fields.drop_first(),
                    name_slot,
                    Some(fval),
                    context_slot,
                    selection_slot,
                )
            }
        } else if fname == "context"@ {
            if context_slot is Some {
                Err(
                    msg_ctx_repeated(
                        fname,
                        crate::document::render_value_v(fval),
                        crate::document::render_value_v(context_slot->0),
                    ),
                )
            } else {
                ctx_slots_v(
                    fields.drop_first(),
                    name_slot,
                    type_slot,
                    Some(fval),
                    selection_slot,
                )
            }
        } else if fname == "selection"@ {
            if selection_slot is Some {
                Err(
                    msg_ctx_repeated(
                        fname,
                        crate::document::render_value_v(fval),
                        crate::document::render_value_v(selection_slot->0),
                    ),
                )
            } else {
                ctx_slots_v(fields.drop_first(), name_slot, type_slot, context_slot, Some(fval))
            }
        } else {
            Err(msg_ctx_unknown(fname))
        }
    }
}

/// A filled slot that must hold a string: missing or non-string is an
/// error naming the field.
pub open spec fn slot_string_v(slot: Option<ValueV>, name: Seq<char>) -> Result<
    Seq<char>,
    Seq<char>,
> {
    match slot {
        None => Err(msg_ctx_missing(name)),
        Some(ValueV::Str(s)) => Ok(s),
        Some(v) => Err(msg_ctx_not_string(name)),
    }
}

/// What decoding one `contextArguments` entry yields: the value must be an
/// object with exactly the four fields `name`, `type`, `context` and
/// `selection`, all strings.
pub open spec fn context_argument_v(v: ValueV) -> Result<ContextArgumentV, Seq<char>> {
    match v {
        ValueV::Object(fields) => match ctx_slots_v(fields, None, None, None, None) {
            Err(m) => Err(m),
            Ok(slots) => match slot_string_v(slots.0, "name"@) {
                Err(m) => Err(m),
                Ok(ns) => match slot_string_v(slots.1, "type"@) {
                    Err(m) => Err(m),
                    Ok(ts) => match slot_string_v(slots.2, "context"@) {
                        Err(m) => Err(m),
                        Ok(cs) => match slot_string_v(slots.3, "selection"@) {
                            Err(m) => Err(m),
                            Ok(ss) => Ok(
                                ContextArgumentV {
                                    name: ns,
                                    type_: ts,
                                    context: cs,
                                    selection: ss,
                                },
                            ),
                        },
                    },
                },
            },
        },
        _ => Err(msg_ctx_not_object(crate::document::render_value_v(v))),
    }
}

fn ctx_error(message_parts_name: &str, kind: u8) -> (r: FederationError)
    requires
        1 <= kind < 4,
    ensures
        kind == 1 ==> r.deep_view() == internal_error_v(msg_ctx_missing(message_parts_name@)),
        kind == 2 ==> r.deep_view() == internal_error_v(msg_ctx_not_string(message_parts_name@)),
        kind == 3 ==> r.deep_view() == internal_error_v(msg_ctx_unknown(message_parts_name@)),
{
    if kind == 1 {
        let mut message: String = "Input field \"".to_owned();
        message.append(message_parts_name);
        message.append("\" is missing from contextArguments");
        FederationError::Single(SingleFederationError::Internal { message })
    } else if kind == 2 {
        let mut message: String = "Input field \"".to_owned();
        message.append(message_parts_name);
        message.append("\" in contextArguments is not a string");
        FederationError::Single(SingleFederationError::Internal { message })
    } else {
        let mut message: String = "Found unknown contextArguments input field \"".to_owned();
        message.append(message_parts_name);
        message.append("\"");
        FederationError::Single(SingleFederationError::Internal { message })
    }
}

/// The error for a repeated `contextArguments` input field, naming it and
/// showing both values.
fn ctx_repeated_error(fname: &str, value: &Value, previous: &Value) -> (r: FederationError)
    ensures
        r.deep_view() == internal_error_v(
            msg_ctx_repeated(
                fname@,
                crate::document::render_value_v(value.deep_view()),
                crate::document::render_value_v(previous.deep_view()),
            ),
        ),
{
    let mut message: String = "Input field \"".to_owned();
    message.append(fname);
    message.append("\" in contextArguments is repeated with value \"");
    let rendered = crate::document::render_value(value);
    message.append(rendered.as_str());
    message.append("\" (previous value was \"");
    let previous_rendered = crate::document::render_value(previous);
    message.append(previous_rendered.as_str());
    message.append("\")");
    FederationError::Single(SingleFederationError::Internal { message })
}

/// The error for a `contextArguments` entry that is not an object, showing
/// the value.
fn ctx_not_object_error(value: &Value) -> (r: FederationError)
    ensures
        r.deep_view() == internal_error_v(
            msg_ctx_not_object(crate::document::render_value_v(value.deep_view())),
        ),
{
    let mut message: String = "Item \"".to_owned();
    let rendered = crate::document::render_value(value);
    message.append(rendered.as_str());
    message.append("\" in contextArguments list is not an object");
    FederationError::Single(SingleFederationError::Internal { message })
}

impl ContextArgument {
    /// Decodes one entry of a `contextArguments` list strictly: the entry
    /// must be an object with exactly the four fields `name`, `type`,
    /// `context` and `selection`, all strings; a duplicate, missing, or
    /// unknown field is an error naming the offending field, a duplicate
    /// showing both values and a non-object entry showing the value.
    #[verifier::loop_isolation(false)]
    pub fn try_from(value: &Value) -> (r: Result<ContextArgument, FederationError>)
        ensures
            (match r {
                Ok(a) => context_argument_v(value.deep_view()) == Ok::<
                    ContextArgumentV,
                    Seq<char>,
                >(a.deep_view()),
                Err(e) => (context_argument_v(value.deep_view()) matches Err(m) && e.deep_view()
                    == internal_error_v(m)),
            }),
    {
        proof {
            broadcast use crate::document::lemma_value_pair_seq_view_props;

        }
        let fields = match value {
            Value::Object(fields) => fields,
            _ => {
                return Err(ctx_not_object_error(value));
            },
        };
        let ghost fields_v = crate::document::value_pair_seq_view(fields@);
        let mut name_slot: Option<&Value> = None;
        let mut type_slot: Option<&Value> = None;
        let mut context_slot: Option<&Value> = None;
        let mut selection_slot: Option<&Value> = None;
        let mut i: usize = 0;
        proof {
            assert(fields_v.skip(0) =~= fields_v);
        }
        while i < fields.len()
            invariant
                0 <= i <= fields.len(),
                ctx_slots_v(fields_v, None, None, None, None) == ctx_slots_v(
                    fields_v.skip(i as int),
                    name_slot.deep_view(),
                    type_slot.deep_view(),
                    context_slot.deep_view(),
                    selection_slot.deep_view(),
                ),
            decreases fields.len() - i,
        {
            proof {
                assert(fields_v.skip(i as int)[0] == fields_v[i as int]);
                assert(fields_v.skip(i as int).drop_first() =~= fields_v.skip(i + 1));
                assert(fields_v[i as int] == (fields@[i as int].0@, crate::document::value_view(
                    fields@[i as int].1,
                )));
            }
            let pair = &fields[i];
            let fname = &pair.0;
            let fval = &pair.1;
            if crate::text::str_eq(fname.as_str(), "name") {
                match name_slot {
                    Some(previous) => {
                        return Err(ctx_repeated_error(fname.as_str(), fval, previous));
                    },
                    None => {},
                }
                name_slot = Some(fval);
            } else if crate::text::str_eq(fname.as_str(), "type") {
                match type_slot {
                    Some(previous) => {
                        return Err(ctx_repeated_error(fname.as_str(), fval, previous));
                    },
                    None => {},
                }
                type_slot = Some(fval);
            } else if crate::text::str_eq(fname.as_str(), "context") {
                match context_slot {
                    Some(previous) => {
                        return Err(ctx_repeated_error(fname.as_str(), fval, previous));
                    },
                    None => {},
                }
                context_slot = Some(fval);
            } else if crate::text::str_eq(fname.as_str(), "selection") {
                match selection_slot {
                    Some(previous) => {
                        return Err(ctx_repeated_error(fname.as_str(), fval, previous));
                    },
                    None => {},
                }
                selection_slot = Some(fval);
            } else {
                return Err(ctx_error(fname.as_str(), 3));
            }
            i = i + 1;
        }
        proof {
            assert(fields_v.skip(fields.len() as int) =~= Seq::<(Seq<char>, ValueV)>::empty());
        }
        let name = match name_slot {
            Some(Value::Str(s)) => s.clone(),
            Some(_) => {
                return Err(ctx_error("name", 2));
            },
            None => {
                return Err(ctx_error("name", 1));
            },
        };
        let type_ = match type_slot {
            Some(Value::Str(s)) => s.clone(),
            Some(_) => {
                return Err(ctx_error("type", 2));
            },
            None => {
                return Err(ctx_error("type", 1));
            },
        };
        let context = match context_slot {
            Some(Value::Str(s)) => s.clone(),
            Some(_) => {
                return Err(ctx_error("context", 2));
            },
            None => {
                return Err(ctx_error("context", 1));
            },
        };
        let selection = match selection_slot {
            Some(Value::Str(s)) => s.clone(),
            Some(_) => {
                return Err(ctx_error("selection", 2));
            },
            None => {
                return Err(ctx_error("selection", 1));
            },
        };
        Ok(ContextArgument { name, type_, context, selection })
    }
}

} // verus!

verus! {

/// The decoded arguments of one `@join__field` application; every argument
/// is optional.
pub struct FieldDirectiveArguments {
    pub graph: Option<String>,
    pub requires_: Option<String>,
    pub provides: Option<String>,
    pub type_: Option<String>,
    pub external: Option<bool>,
    pub override_: Option<String>,
    pub override_label: Option<String>,
    pub user_overridden: Option<bool>,
    pub context_arguments: Option<Vec<ContextArgument>>,
}

/// Decoding every entry of a `contextArguments` list; the first failing
/// entry's error wins.
pub open spec fn ctx_list_v(items: Seq<ValueV>) -> Result<Seq<ContextArgumentV>, Seq<char>>
    decreases items.len(),
{
    if items.len() == 0 {
        Ok(Seq::empty())
    } else {
        match context_argument_v(items[0]) {
            Err(m) => Err(m),
            Ok(a) => match ctx_list_v(items.drop_first()) {
                Err(m) => Err(m),
                Ok(rest) => Ok(seq![a] + rest),
            },
        }
    }
}

/// The first failure decoding a `@join__field` application, if any: the
/// eight optional arguments in declaration order, then `contextArguments`
/// as a strictly decoded list of objects.
pub open spec fn field_directive_arguments_err_v(d: crate::document::DirectiveV) -> Option<
    Seq<char>,
> {
    if optional_enum_arg_v(d, "graph"@) is Err {
        Some(optional_enum_arg_v(d, "graph"@)->Err_0)
    } else if optional_string_arg_v(d, "requires"@) is Err {
        Some(optional_string_arg_v(d, "requires"@)->Err_0)
    } else if optional_string_arg_v(d, "provides"@) is Err {
        Some(optional_string_arg_v(d, "provides"@)->Err_0)
    } else if optional_string_arg_v(d, "type"@) is Err {
        Some(optional_string_arg_v(d, "type"@)->Err_0)
    } else if optional_boolean_arg_v(d, "external"@) is Err {
        Some(optional_boolean_arg_v(d, "external"@)->Err_0)
    } else if optional_string_arg_v(d, "override"@) is Err {
        Some(optional_string_arg_v(d, "override"@)->Err_0)
    } else if optional_string_arg_v(d, "overrideLabel"@) is Err {
        Some(optional_string_arg_v(d, "overrideLabel"@)->Err_0)
    } else if optional_boolean_arg_v(d, "usedOverridden"@) is Err {
        Some(optional_boolean_arg_v(d, "usedOverridden"@)->Err_0)
    } else {
        match optional_list_arg_v(d, "contextArguments"@) {
            Err(m) => Some(m),
            Ok(None) => None,
            Ok(Some(items)) => match ctx_list_v(items) {
                Err(m) => Some(m),
                Ok(l) => None,
            },
        }
    }
}

impl JoinSpecDefinition {
    /// Decodes `@join__field(...)`: every argument optional, and the
    /// `contextArguments` list of objects decoded strictly.  Succeeds if
    /// and only if no argument fails its decode.
    #[verifier::loop_isolation(false)]
    pub fn field_directive_arguments(&self, application: &Directive) -> (r: Result<
        FieldDirectiveArguments,
        FederationError,
    >)
        ensures
            (match r {
                Ok(a) => {
                    &&& optional_enum_arg_v(application.deep_view(), "graph"@) == Ok::<
                        Option<Seq<char>>,
                        Seq<char>,
                    >(a.graph.deep_view())
                    &&& optional_string_arg_v(application.deep_view(), "requires"@) == Ok::<
                        Option<Seq<char>>,
                        Seq<char>,
                    >(a.requires_.deep_view())
                    &&& optional_string_arg_v(application.deep_view(), "provides"@) == Ok::<
                        Option<Seq<char>>,
                        Seq<char>,
                    >(a.provides.deep_view())
                    &&& optional_string_arg_v(application.deep_view(), "type"@) == Ok::<
                        Option<Seq<char>>,
                        Seq<char>,
                    >(a.type_.deep_view())
                    &&& optional_boolean_arg_v(application.deep_view(), "external"@) == Ok::<
                        Option<bool>,
                        Seq<char>,
                    >(a.external)
                    &&& optional_string_arg_v(application.deep_view(), "override"@) == Ok::<
                        Option<Seq<char>>,
                        Seq<char>,
                    >(a.override_.deep_view())
                    &&& optional_string_arg_v(application.deep_view(), "overrideLabel"@) == Ok::<
                        Option<Seq<char>>,
                        Seq<char>,
                    >(a.override_label.deep_view())
                    &&& optional_boolean_arg_v(application.deep_view(), "usedOverridden"@) == Ok::<
                        Option<bool>,
                        Seq<char>,
                    >(a.user_overridden)
                    &&& (match optional_list_arg_v(application.deep_view(), "contextArguments"@) {
                        Ok(Some(items)) => ctx_list_v(items) == Ok::<
                            Seq<ContextArgumentV>,
                            Seq<char>,
                        >(a.context_arguments->0.deep_view()) && a.context_arguments is Some,
                        Ok(None) => a.context_arguments is None,
                        Err(m) => false,
                    })
                    &&& field_directive_arguments_err_v(application.deep_view()) is None
                },
                Err(e) => (field_directive_arguments_err_v(application.deep_view()) matches Some(m)
                    && e.deep_view() == internal_error_v(m)),
            }),
    {
        let graph = match directive_optional_enum_argument(application, "graph") {
            Ok(s) => s,
            Err(e) => {
                return Err(e);
            },
        };
        let requires_ = match directive_optional_string_argument(application, "requires") {
            Ok(s) => s,
            Err(e) => {
                return Err(e);
            },
        };
        let provides = match directive_optional_string_argument(application, "provides") {
            Ok(s) => s,
            Err(e) => {
                return Err(e);
            },
        };
        let type_ = match directive_optional_string_argument(application, "type") {
            Ok(s) => s,
            Err(e) => {
                return Err(e);
            },
        };
        let external = match directive_optional_boolean_argument(application, "external") {
            Ok(b) => b,
            Err(e) => {
                return Err(e);
            },
        };
        let override_ = match directive_optional_string_argument(application, "override") {
            Ok(s) => s,
            Err(e) => {
                return Err(e);
            },
        };
        let override_label = match directive_optional_string_argument(application, "overrideLabel")
            {
            Ok(s) => s,
            Err(e) => {
                return Err(e);
            },
        };
        let user_overridden = match directive_optional_boolean_argument(
            application,
            "usedOverridden",
        ) {
            Ok(b) => b,
            Err(e) => {
                return Err(e);
            },
        };
        let items_opt = match directive_arg_value(application, "contextArguments") {
            Some(v) => match v {
                Value::List(items) => Some(items),
                Value::Null => None,
                _ => {
                    let mut message: String = "Argument \"".to_owned();
                    message.append("contextArguments");
                    message.append("\" is not a list");
                    let ghost mv = message@;
                    let err = FederationError::Single(
                        SingleFederationError::Internal { message },
                    );
                    proof {
                        assert(err.deep_view() == internal_error_v(mv));
                    }
                    return Err(err);
                },
            },
            None => None,
        };
        let context_arguments = match items_opt {
            None => None,
            Some(items) => {
                proof {
                    broadcast use crate::document::lemma_value_seq_view_props;

                }
                let ghost items_v = crate::document::value_seq_view(items@);
                let mut out: Vec<ContextArgument> = Vec::new();
                let mut i: usize = 0;
                proof {
                    assert(items_v.skip(0) =~= items_v);
                    assert(ctx_list_v(items_v.skip(0)) == Ok::<Seq<ContextArgumentV>, Seq<char>>(
                        Seq::empty(),
                    ) ==> true);
                }
                while i < items.len()
                    invariant
                        0 <= i <= items.len(),
                        (match ctx_list_v(items_v) {
                            Ok(all) => ctx_list_v(items_v.skip(i as int)) is Ok && all
                                == out.deep_view() + ctx_list_v(items_v.skip(i as int))->Ok_0,
                            Err(m) => ctx_list_v(items_v.skip(i as int)) is Err && ctx_list_v(
                                items_v.skip(i as int),
                            )->Err_0 == m,
                        }),
                    decreases items.len() - i,
                {
                    proof {
                        assert(items_v.skip(i as int)[0] == items_v[i as int]);
                        assert(items_v[i as int] == crate::document::value_view(items@[i as int]));
                        assert(items_v.skip(i as int).drop_first() =~= items_v.skip(i + 1));
                    }
                    match ContextArgument::try_from(&items[i]) {
                        Ok(a) => {
                            let ghost prev = out.deep_view();
                            out.push(a);
                            proof {
                                if ctx_list_v(items_v) is Ok {
                                    assert(out.deep_view() + ctx_list_v(items_v.skip(i + 1))->Ok_0
                                        =~= prev + ctx_list_v(items_v.skip(i as int))->Ok_0);
                                }
                            }
                        },
                        Err(e) => {
                            return Err(e);
                        },
                    }
                    i = i + 1;
                }
                proof {
                    assert(items_v.skip(items.len() as int) =~= Seq::<ValueV>::empty());
                    assert(out.deep_view() + Seq::<ContextArgumentV>::empty() =~= out.deep_view());
                }
                Some(out)
            },
        };
        Ok(
            FieldDirectiveArguments {
                graph,
                requires_,
                provides,
                type_,
                external,
                override_,
                override_label,
                user_overridden,
                context_arguments,
            },
        )
    }
}

} // verus!
