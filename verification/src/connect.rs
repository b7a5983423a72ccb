//! The error codes connector validation reports and how important each one
//! is.  The codes are global identifiers consuming tools match on; they do
//! not change once stabilized.

use vstd::prelude::*;

verus! {

/// The code shown to users when a connectors validation fails during
/// composition.
#[derive(Clone, Copy, PartialEq, Eq, Structural, Debug)]
pub enum Code {
    /// A problem with GraphQL syntax or semantics.
    GraphQLError,
    /// Two connector sources with the same name.
    DuplicateSourceName,
    /// The `name` of a `@source` was invalid.
    InvalidSourceName,
    /// A `@source` without a `name`.
    EmptySourceName,
    /// A URL in `@source` or `@connect` was not valid.
    InvalidUrl,
    /// A URL scheme was not `http` or `https`.
    InvalidUrlScheme,
    /// The `source` of a `@connect` names no `@source`.
    SourceNameMismatch,
    /// Subscriptions are not supported with connectors.
    SubscriptionInConnectors,
    /// A `@connect` using a `source` gave an absolute URL.
    AbsoluteConnectUrlWithSource,
    /// A `@connect` with a relative URL but no `source`.
    RelativeConnectUrlWithoutSource,
    /// No sources were defined at all.
    NoSourcesDefined,
    /// The subgraph does not import the `@source` directive.
    NoSourceImport,
    /// A `@connect` with more than one HTTP method.
    MultipleHttpMethods,
    /// A `@connect` without an HTTP method.
    MissingHttpMethod,
    /// The `entity` argument used off the root `Query` type.
    EntityNotOnRootQuery,
    /// Entity resolver arguments do not match the entity type.
    EntityResolverArgumentMismatch,
    /// The `entity` argument used with an unsupported type shape.
    EntityTypeInvalid,
    /// A `@key` without a corresponding entity connector.
    MissingEntityConnector,
    /// An invalid selection mapping in a `@connect`.
    InvalidSelection,
    /// An invalid `http.body` in a `@connect`.
    InvalidBody,
    /// A circular reference in a `selection` argument.
    CircularReference,
    /// A selected field is not defined on the type.
    SelectedFieldNotFound,
    /// A group selection used on a non-object field.
    GroupSelectionIsNotObject,
    /// A header `name` mapping repeated across headers.
    HttpHeaderNameCollision,
    /// An invalid header in `@source` or `@connect`.
    InvalidHeader,
    /// A federation directive not allowed with connectors.
    ConnectorsUnsupportedFederationDirective,
    /// An abstract type used with connectors.
    ConnectorsUnsupportedAbstractType,
    /// An object field without the required group selection.
    GroupSelectionRequiredForObject,
    /// A field no connector resolves.
    ConnectorsUnresolvedField,
    /// A connector-resolved field that declares arguments.
    ConnectorsFieldWithArguments,
    /// A reference to an undefined `$args`.
    UndefinedArgument,
    /// A reference to an undefined `$this`.
    UndefinedField,
    /// A variable of a type not yet supported.
    UnsupportedVariableType,
    /// A nullable variable where runtime requires non-null.
    NullabilityMismatch,
    /// An unknown connectors `@link` version.
    UnknownConnectorsVersion,
}

/// Given the code of a message, how important that message is.
#[derive(Clone, Copy, PartialEq, Eq, Structural, Debug)]
pub enum Severity {
    /// An error: validation has failed.
    Error,
    /// Worth knowing, but composition goes on.
    Warning,
}

impl Code {
    /// How important a message with this code is: a missing `@source`
    /// import and a nullability mismatch only warn, everything else is an
    /// error.
    pub fn severity(&self) -> (r: Severity)
        ensures
            r == (if self == Code::NoSourceImport || self == Code::NullabilityMismatch {
                Severity::Warning
            } else {
                Severity::Error
            }),
    {
        match self {
            Code::NoSourceImport => Severity::Warning,
            Code::NullabilityMismatch => Severity::Warning,
            _ => Severity::Error,
        }
    }
}

} // verus!
