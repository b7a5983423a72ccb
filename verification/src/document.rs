//! The library's model of a GraphQL schema document.
//!
//! A subgraph schema arrives already parsed and locally valid; this module
//! holds the parts of such a document that composition reads and the parts a
//! supergraph document is built from: named type definitions, directive
//! definitions, directive applications with their argument values, and the
//! schema definition's root operation bindings.
//!
//! Each executable type has a ghost counterpart (`...V`) over `Seq` and
//! `Option`, reached through `DeepView`; contracts speak of those views.

use vstd::prelude::*;

verus! {

/// A constant value as it appears in a directive argument.
///
/// Numeric values carry their source text: composition never computes with
/// them, it only copies, compares and reports them.
#[derive(PartialEq, Eq)]
pub enum Value {
    Null,
    Enum(String),
    Variable(String),
    Str(String),
    Int(String),
    Float(String),
    Boolean(bool),
    List(Vec<Value>),
    Object(Vec<(String, Value)>),
}

/// Ghost counterpart of [`Value`].
pub enum ValueV {
    Null,
    Enum(Seq<char>),
    Variable(Seq<char>),
    Str(Seq<char>),
    Int(Seq<char>),
    Float(Seq<char>),
    Boolean(bool),
    List(Seq<ValueV>),
    Object(Seq<(Seq<char>, ValueV)>),
}

pub open spec fn value_view(v: Value) -> ValueV
    decreases v,
{
    match v {
        Value::Null => ValueV::Null,
        Value::Enum(s) => ValueV::Enum(s@),
        Value::Variable(s) => ValueV::Variable(s@),
        Value::Str(s) => ValueV::Str(s@),
        Value::Int(s) => ValueV::Int(s@),
        Value::Float(s) => ValueV::Float(s@),
        Value::Boolean(b) => ValueV::Boolean(b),
        Value::List(l) => ValueV::List(value_seq_view(l@)),
        Value::Object(l) => ValueV::Object(value_pair_seq_view(l@)),
    }
}

pub open spec fn value_seq_view(l: Seq<Value>) -> Seq<ValueV>
    decreases l,
{
    if l.len() == 0 {
        Seq::empty()
    } else {
        seq![value_view(l[0])] + value_seq_view(l.drop_first())
    }
}

pub open spec fn value_pair_seq_view(l: Seq<(String, Value)>) -> Seq<(Seq<char>, ValueV)>
    decreases l,
{
    if l.len() == 0 {
        Seq::empty()
    } else {
        seq![(l[0].0@, value_view(l[0].1))] + value_pair_seq_view(l.drop_first())
    }
}

/// `value_seq_view` maps the sequence pointwise.
pub broadcast proof fn lemma_value_seq_view_props(l: Seq<Value>)
    ensures
        (#[trigger] value_seq_view(l)).len() == l.len(),
        forall|k: int| 0 <= k < l.len() ==> value_seq_view(l)[k] == value_view(l[k]),
    decreases l.len(),
{
    if l.len() > 0 {
        lemma_value_seq_view_props(l.drop_first());
    }
}

/// `value_pair_seq_view` maps the sequence pointwise.
pub broadcast proof fn lemma_value_pair_seq_view_props(l: Seq<(String, Value)>)
    ensures
        (#[trigger] value_pair_seq_view(l)).len() == l.len(),
        forall|k: int|
            0 <= k < l.len() ==> value_pair_seq_view(l)[k] == (l[k].0@, value_view(l[k].1)),
    decreases l.len(),
{
    if l.len() > 0 {
        lemma_value_pair_seq_view_props(l.drop_first());
    }
}

impl DeepView for Value {
    type V = ValueV;

    open spec fn deep_view(&self) -> ValueV {
        value_view(*self)
    }
}

/// One named argument of a directive application.
#[derive(PartialEq, Eq)]
pub struct Argument {
    pub name: String,
    pub value: Value,
}

pub struct ArgumentV {
    pub name: Seq<char>,
    pub value: ValueV,
}

impl DeepView for Argument {
    type V = ArgumentV;

    open spec fn deep_view(&self) -> ArgumentV {
        ArgumentV { name: self.name@, value: self.value.deep_view() }
    }
}

/// A directive application, such as `@key(fields: "id")`.
#[derive(PartialEq, Eq)]
pub struct Directive {
    pub name: String,
    pub arguments: Vec<Argument>,
}

#[verifier::ext_equal]
pub struct DirectiveV {
    pub name: Seq<char>,
    pub arguments: Seq<ArgumentV>,
}

impl DeepView for Directive {
    type V = DirectiveV;

    open spec fn deep_view(&self) -> DirectiveV {
        DirectiveV { name: self.name@, arguments: self.arguments.deep_view() }
    }
}

/// A type reference, such as `[link__Import]` or `String!`.
#[derive(PartialEq, Eq)]
pub enum Ty {
    Named(String),
    NonNullNamed(String),
    List(Box<Ty>),
    NonNullList(Box<Ty>),
}

pub enum TyV {
    Named(Seq<char>),
    NonNullNamed(Seq<char>),
    List(Box<TyV>),
    NonNullList(Box<TyV>),
}

pub open spec fn ty_view(t: Ty) -> TyV
    decreases t,
{
    match t {
        Ty::Named(s) => TyV::Named(s@),
        Ty::NonNullNamed(s) => TyV::NonNullNamed(s@),
        Ty::List(inner) => TyV::List(Box::new(ty_view(*inner))),
        Ty::NonNullList(inner) => TyV::NonNullList(Box::new(ty_view(*inner))),
    }
}

impl DeepView for Ty {
    type V = TyV;

    open spec fn deep_view(&self) -> TyV {
        ty_view(*self)
    }
}

/// An argument declaration or input-object field: name, type, optional
/// default, own directives.
#[derive(PartialEq, Eq)]
pub struct InputValue {
    pub name: String,
    pub description: Option<String>,
    pub ty: Ty,
    pub default_value: Option<Value>,
    pub directives: Vec<Directive>,
}

#[verifier::ext_equal]
pub struct InputValueV {
    pub name: Seq<char>,
    pub description: Option<Seq<char>>,
    pub ty: TyV,
    pub default_value: Option<ValueV>,
    pub directives: Seq<DirectiveV>,
}

impl DeepView for InputValue {
    type V = InputValueV;

    open spec fn deep_view(&self) -> InputValueV {
        InputValueV {
            name: self.name@,
            description: self.description.deep_view(),
            ty: self.ty.deep_view(),
            default_value: self.default_value.deep_view(),
            directives: self.directives.deep_view(),
        }
    }
}

/// A directive definition, such as `directive @link(...) repeatable on SCHEMA`.
#[derive(PartialEq, Eq)]
pub struct DirectiveDefinition {
    pub name: String,
    pub description: Option<String>,
    pub arguments: Vec<InputValue>,
    pub repeatable: bool,
    pub locations: Vec<DirectiveLocation>,
}

#[verifier::ext_equal]
pub struct DirectiveDefinitionV {
    pub name: Seq<char>,
    pub description: Option<Seq<char>>,
    pub arguments: Seq<InputValueV>,
    pub repeatable: bool,
    pub locations: Seq<DirectiveLocation>,
}

impl DeepView for DirectiveDefinition {
    type V = DirectiveDefinitionV;

    open spec fn deep_view(&self) -> DirectiveDefinitionV {
        DirectiveDefinitionV {
            name: self.name@,
            description: self.description.deep_view(),
            arguments: self.arguments.deep_view(),
            repeatable: self.repeatable,
            locations: self.locations.deep_view(),
        }
    }
}

/// One position a directive may be applied at.
#[derive(Clone, Copy, PartialEq, Eq, Structural, Debug)]
pub enum DirectiveLocation {
    Query,
    Mutation,
    Subscription,
    Field,
    FragmentDefinition,
    FragmentSpread,
    InlineFragment,
    VariableDefinition,
    Schema,
    Scalar,
    Object,
    FieldDefinition,
    ArgumentDefinition,
    Interface,
    Union,
    Enum,
    EnumValue,
    InputObject,
    InputFieldDefinition,
}

impl DeepView for DirectiveLocation {
    type V = DirectiveLocation;

    open spec fn deep_view(&self) -> DirectiveLocation {
        *self
    }
}

/// An output field of an object or interface type.
#[derive(PartialEq, Eq)]
pub struct FieldDefinition {
    pub name: String,
    pub description: Option<String>,
    pub arguments: Vec<InputValue>,
    pub ty: Ty,
    pub directives: Vec<Directive>,
}

#[verifier::ext_equal]
pub struct FieldDefinitionV {
    pub name: Seq<char>,
    pub description: Option<Seq<char>>,
    pub arguments: Seq<InputValueV>,
    pub ty: TyV,
    pub directives: Seq<DirectiveV>,
}

impl DeepView for FieldDefinition {
    type V = FieldDefinitionV;

    open spec fn deep_view(&self) -> FieldDefinitionV {
        FieldDefinitionV {
            name: self.name@,
            description: self.description.deep_view(),
            arguments: self.arguments.deep_view(),
            ty: self.ty.deep_view(),
            directives: self.directives.deep_view(),
        }
    }
}

/// One value of an enum type, with the directives applied to it.
#[derive(PartialEq, Eq)]
pub struct EnumValueDefinition {
    pub value: String,
    pub description: Option<String>,
    pub directives: Vec<Directive>,
}

#[verifier::ext_equal]
pub struct EnumValueDefinitionV {
    pub value: Seq<char>,
    pub description: Option<Seq<char>>,
    pub directives: Seq<DirectiveV>,
}

impl DeepView for EnumValueDefinition {
    type V = EnumValueDefinitionV;

    open spec fn deep_view(&self) -> EnumValueDefinitionV {
        EnumValueDefinitionV {
            value: self.value@,
            description: self.description.deep_view(),
            directives: self.directives.deep_view(),
        }
    }
}

/// A scalar type definition.
#[derive(PartialEq, Eq)]
pub struct ScalarDef {
    pub description: Option<String>,
    pub directives: Vec<Directive>,
}

#[verifier::ext_equal]
pub struct ScalarDefV {
    pub description: Option<Seq<char>>,
    pub directives: Seq<DirectiveV>,
}

impl DeepView for ScalarDef {
    type V = ScalarDefV;

    open spec fn deep_view(&self) -> ScalarDefV {
        ScalarDefV {
            description: self.description.deep_view(),
            directives: self.directives.deep_view(),
        }
    }
}

/// An object type definition.
#[derive(PartialEq, Eq)]
pub struct ObjectDef {
    pub description: Option<String>,
    pub directives: Vec<Directive>,
    pub implements_interfaces: Vec<String>,
    pub fields: Vec<FieldDefinition>,
}

#[verifier::ext_equal]
pub struct ObjectDefV {
    pub description: Option<Seq<char>>,
    pub directives: Seq<DirectiveV>,
    pub implements_interfaces: Seq<Seq<char>>,
    pub fields: Seq<FieldDefinitionV>,
}

impl DeepView for ObjectDef {
    type V = ObjectDefV;

    open spec fn deep_view(&self) -> ObjectDefV {
        ObjectDefV {
            description: self.description.deep_view(),
            directives: self.directives.deep_view(),
            implements_interfaces: self.implements_interfaces.deep_view(),
            fields: self.fields.deep_view(),
        }
    }
}

/// An interface type definition; structurally like an object type.
#[derive(PartialEq, Eq)]
pub struct InterfaceDef {
    pub description: Option<String>,
    pub directives: Vec<Directive>,
    pub implements_interfaces: Vec<String>,
    pub fields: Vec<FieldDefinition>,
}

#[verifier::ext_equal]
pub struct InterfaceDefV {
    pub description: Option<Seq<char>>,
    pub directives: Seq<DirectiveV>,
    pub implements_interfaces: Seq<Seq<char>>,
    pub fields: Seq<FieldDefinitionV>,
}

impl DeepView for InterfaceDef {
    type V = InterfaceDefV;

    open spec fn deep_view(&self) -> InterfaceDefV {
        InterfaceDefV {
            description: self.description.deep_view(),
            directives: self.directives.deep_view(),
            implements_interfaces: self.implements_interfaces.deep_view(),
            fields: self.fields.deep_view(),
        }
    }
}

/// A union type definition; members in declaration order.
#[derive(PartialEq, Eq)]
pub struct UnionDef {
    pub description: Option<String>,
    pub directives: Vec<Directive>,
    pub members: Vec<String>,
}

#[verifier::ext_equal]
pub struct UnionDefV {
    pub description: Option<Seq<char>>,
    pub directives: Seq<DirectiveV>,
    pub members: Seq<Seq<char>>,
}

impl DeepView for UnionDef {
    type V = UnionDefV;

    open spec fn deep_view(&self) -> UnionDefV {
        UnionDefV {
            description: self.description.deep_view(),
            directives: self.directives.deep_view(),
            members: self.members.deep_view(),
        }
    }
}

/// An enum type definition; values in declaration order.
#[derive(PartialEq, Eq)]
pub struct EnumDef {
    pub description: Option<String>,
    pub directives: Vec<Directive>,
    pub values: Vec<EnumValueDefinition>,
}

#[verifier::ext_equal]
pub struct EnumDefV {
    pub description: Option<Seq<char>>,
    pub directives: Seq<DirectiveV>,
    pub values: Seq<EnumValueDefinitionV>,
}

impl DeepView for EnumDef {
    type V = EnumDefV;

    open spec fn deep_view(&self) -> EnumDefV {
        EnumDefV {
            description: self.description.deep_view(),
            directives: self.directives.deep_view(),
            values: self.values.deep_view(),
        }
    }
}

/// An input object type definition; fields in declaration order.
#[derive(PartialEq, Eq)]
pub struct InputObjectDef {
    pub description: Option<String>,
    pub directives: Vec<Directive>,
    pub fields: Vec<InputValue>,
}

#[verifier::ext_equal]
pub struct InputObjectDefV {
    pub description: Option<Seq<char>>,
    pub directives: Seq<DirectiveV>,
    pub fields: Seq<InputValueV>,
}

impl DeepView for InputObjectDef {
    type V = InputObjectDefV;

    open spec fn deep_view(&self) -> InputObjectDefV {
        InputObjectDefV {
            description: self.description.deep_view(),
            directives: self.directives.deep_view(),
            fields: self.fields.deep_view(),
        }
    }
}

/// One named type definition, of whichever kind.
#[derive(PartialEq, Eq)]
pub enum TypeDef {
    Scalar(ScalarDef),
    Object(ObjectDef),
    Interface(InterfaceDef),
    Union(UnionDef),
    Enum(EnumDef),
    InputObject(InputObjectDef),
}

#[verifier::ext_equal]
pub enum TypeDefV {
    Scalar(ScalarDefV),
    Object(ObjectDefV),
    Interface(InterfaceDefV),
    Union(UnionDefV),
    Enum(EnumDefV),
    InputObject(InputObjectDefV),
}

impl DeepView for TypeDef {
    type V = TypeDefV;

    open spec fn deep_view(&self) -> TypeDefV {
        match self {
            TypeDef::Scalar(d) => TypeDefV::Scalar(d.deep_view()),
            TypeDef::Object(d) => TypeDefV::Object(d.deep_view()),
            TypeDef::Interface(d) => TypeDefV::Interface(d.deep_view()),
            TypeDef::Union(d) => TypeDefV::Union(d.deep_view()),
            TypeDef::Enum(d) => TypeDefV::Enum(d.deep_view()),
            TypeDef::InputObject(d) => TypeDefV::InputObject(d.deep_view()),
        }
    }
}

/// An entry of a document's type map: declaration order is kept, names are
/// unique in a locally valid document.  `built_in` marks definitions that
/// belong to the GraphQL language itself rather than to the document.
#[derive(PartialEq, Eq)]
pub struct TypeEntry {
    pub name: String,
    pub built_in: bool,
    pub def: TypeDef,
}

#[verifier::ext_equal]
pub struct TypeEntryV {
    pub name: Seq<char>,
    pub built_in: bool,
    pub def: TypeDefV,
}

impl DeepView for TypeEntry {
    type V = TypeEntryV;

    open spec fn deep_view(&self) -> TypeEntryV {
        TypeEntryV { name: self.name@, built_in: self.built_in, def: self.def.deep_view() }
    }
}

/// A schema document: the schema definition's parts, the named types in
/// order, and the directive definitions in order.
#[derive(PartialEq, Eq)]
pub struct Document {
    pub description: Option<String>,
    pub schema_directives: Vec<Directive>,
    pub query_root: Option<String>,
    pub mutation_root: Option<String>,
    pub subscription_root: Option<String>,
    pub types: Vec<TypeEntry>,
    pub directive_definitions: Vec<DirectiveDefinition>,
}

#[verifier::ext_equal]
pub struct DocumentV {
    pub description: Option<Seq<char>>,
    pub schema_directives: Seq<DirectiveV>,
    pub query_root: Option<Seq<char>>,
    pub mutation_root: Option<Seq<char>>,
    pub subscription_root: Option<Seq<char>>,
    pub types: Seq<TypeEntryV>,
    pub directive_definitions: Seq<DirectiveDefinitionV>,
}

impl DeepView for Document {
    type V = DocumentV;

    open spec fn deep_view(&self) -> DocumentV {
        DocumentV {
            description: self.description.deep_view(),
            schema_directives: self.schema_directives.deep_view(),
            query_root: self.query_root.deep_view(),
            mutation_root: self.mutation_root.deep_view(),
            subscription_root: self.subscription_root.deep_view(),
            types: self.types.deep_view(),
            directive_definitions: self.directive_definitions.deep_view(),
        }
    }
}

/// Copies an optional description.
pub fn clone_opt_string(s: &Option<String>) -> (r: Option<String>)
    ensures
        r.deep_view() == s.deep_view(),
{
    match s {
        Option::None => Option::None,
        Option::Some(x) => Option::Some(x.clone()),
    }
}

/// Copies a list of names.
pub fn clone_string_vec(v: &Vec<String>) -> (r: Vec<String>)
    ensures
        r.deep_view() == v.deep_view(),
{
    let mut out: Vec<String> = Vec::new();
    let mut i: usize = 0;
    while i < v.len()
        invariant
            0 <= i <= v.len(),
            out.len() == i,
            out.deep_view() =~= v.deep_view().take(i as int),
        decreases v.len() - i,
    {
        out.push(v[i].clone());
        proof {
            assert(out.deep_view() =~= v.deep_view().take(i + 1));
        }
        i = i + 1;
    }
    proof {
        assert(v.deep_view().take(v.len() as int) =~= v.deep_view());
    }
    out
}

/// Copies a type reference.
pub fn clone_ty(t: &Ty) -> (r: Ty)
    ensures
        r.deep_view() == t.deep_view(),
    decreases *t,
{
    match t {
        Ty::Named(s) => Ty::Named(s.clone()),
        Ty::NonNullNamed(s) => Ty::NonNullNamed(s.clone()),
        Ty::List(inner) => Ty::List(Box::new(clone_ty(inner))),
        Ty::NonNullList(inner) => Ty::NonNullList(Box::new(clone_ty(inner))),
    }
}

/// Copies an argument value.
#[verifier::loop_isolation(false)]
pub fn clone_value(v: &Value) -> (r: Value)
    ensures
        r.deep_view() == v.deep_view(),
    decreases *v,
{
    match v {
        Value::Null => Value::Null,
        Value::Enum(s) => Value::Enum(s.clone()),
        Value::Variable(s) => Value::Variable(s.clone()),
        Value::Str(s) => Value::Str(s.clone()),
        Value::Int(s) => Value::Int(s.clone()),
        Value::Float(s) => Value::Float(s.clone()),
        Value::Boolean(b) => Value::Boolean(*b),
        Value::List(l) => {
            proof {
                broadcast use lemma_value_seq_view_props;

            }
            let mut out: Vec<Value> = Vec::new();
            let mut i: usize = 0;
            while i < l.len()
                invariant
                    0 <= i <= l.len(),
                    out.len() == i,
                    out.deep_view() =~= value_seq_view(l@).take(i as int),
                decreases l.len() - i,
            {
                proof {
                    broadcast use lemma_value_seq_view_props;

                    assert(v is List);
                    assert(v->List_0 == *l);
                    assert(decreases_to!(*v => v->List_0));
                    assert(decreases_to!(v->List_0 => v->List_0@));
                    assert(decreases_to!(v->List_0@ => v->List_0@[i as int]));
                    assert(v->List_0@[i as int] == l@[i as int]);
                }
                out.push(clone_value(&l[i]));
                proof {
                    broadcast use lemma_value_seq_view_props;

                    assert(out.deep_view() =~= value_seq_view(l@).take(i + 1));
                }
                i = i + 1;
            }
            proof {
                broadcast use lemma_value_seq_view_props;

                assert(value_seq_view(l@).take(l@.len() as int) =~= value_seq_view(l@));
                assert(value_seq_view(out@) =~= out.deep_view());
            }
            Value::List(out)
        },
        Value::Object(l) => {
            proof {
                broadcast use lemma_value_pair_seq_view_props;

            }
            let mut out: Vec<(String, Value)> = Vec::new();
            let mut i: usize = 0;
            while i < l.len()
                invariant
                    0 <= i <= l.len(),
                    out.len() == i,
                    out.deep_view() =~= value_pair_seq_view(l@).take(i as int),
                decreases l.len() - i,
            {
                proof {
                    broadcast use lemma_value_pair_seq_view_props;

                    assert(v is Object);
                    assert(v->Object_0 == *l);
                    assert(decreases_to!(*v => v->Object_0));
                    assert(decreases_to!(v->Object_0 => v->Object_0@));
                    assert(decreases_to!(v->Object_0@ => v->Object_0@[i as int]));
                    assert(decreases_to!(v->Object_0@[i as int] => v->Object_0@[i as int].1));
                    assert(v->Object_0@[i as int].1 == l@[i as int].1);
                }
                let pair = &l[i];
                out.push((pair.0.clone(), clone_value(&pair.1)));
                proof {
                    broadcast use lemma_value_pair_seq_view_props;

                    assert(out.deep_view() =~= value_pair_seq_view(l@).take(i + 1));
                }
                i = i + 1;
            }
            proof {
                broadcast use lemma_value_pair_seq_view_props;

                assert(value_pair_seq_view(l@).take(l@.len() as int) =~= value_pair_seq_view(
                    l@,
                ));
                assert(value_pair_seq_view(out@) =~= out.deep_view());
            }
            Value::Object(out)
        },
    }
}

/// Copies an optional argument value.
pub fn clone_opt_value(v: &Option<Value>) -> (r: Option<Value>)
    ensures
        r.deep_view() == v.deep_view(),
{
    match v {
        Option::None => Option::None,
        Option::Some(x) => Option::Some(clone_value(x)),
    }
}

/// Copies one directive argument.
pub fn clone_argument(a: &Argument) -> (r: Argument)
    ensures
        r.deep_view() == a.deep_view(),
{
    Argument { name: a.name.clone(), value: clone_value(&a.value) }
}

/// Copies a directive application.
pub fn clone_directive(d: &Directive) -> (r: Directive)
    ensures
        r.deep_view() == d.deep_view(),
{
    let mut arguments: Vec<Argument> = Vec::new();
    let mut i: usize = 0;
    while i < d.arguments.len()
        invariant
            0 <= i <= d.arguments.len(),
            arguments.len() == i,
            arguments.deep_view() =~= d.arguments.deep_view().take(i as int),
        decreases d.arguments.len() - i,
    {
        arguments.push(clone_argument(&d.arguments[i]));
        proof {
            assert(arguments.deep_view() =~= d.arguments.deep_view().take(i + 1));
        }
        i = i + 1;
    }
    proof {
        assert(d.arguments.deep_view().take(d.arguments.len() as int) =~= d.arguments.deep_view());
    }
    Directive { name: d.name.clone(), arguments }
}

/// Copies a list of directive applications.
pub fn clone_directives(v: &Vec<Directive>) -> (r: Vec<Directive>)
    ensures
        r.deep_view() == v.deep_view(),
{
    let mut out: Vec<Directive> = Vec::new();
    let mut i: usize = 0;
    while i < v.len()
        invariant
            0 <= i <= v.len(),
            out.len() == i,
            out.deep_view() =~= v.deep_view().take(i as int),
        decreases v.len() - i,
    {
        out.push(clone_directive(&v[i]));
        proof {
            assert(out.deep_view() =~= v.deep_view().take(i + 1));
        }
        i = i + 1;
    }
    proof {
        assert(v.deep_view().take(v.len() as int) =~= v.deep_view());
    }
    out
}

/// Copies an argument declaration or input field.
pub fn clone_input_value(v: &InputValue) -> (r: InputValue)
    ensures
        r.deep_view() == v.deep_view(),
{
    InputValue {
        name: v.name.clone(),
        description: clone_opt_string(&v.description),
        ty: clone_ty(&v.ty),
        default_value: clone_opt_value(&v.default_value),
        directives: clone_directives(&v.directives),
    }
}

/// Copies a list of argument declarations or input fields.
pub fn clone_input_values(v: &Vec<InputValue>) -> (r: Vec<InputValue>)
    ensures
        r.deep_view() == v.deep_view(),
{
    let mut out: Vec<InputValue> = Vec::new();
    let mut i: usize = 0;
    while i < v.len()
        invariant
            0 <= i <= v.len(),
            out.len() == i,
            out.deep_view() =~= v.deep_view().take(i as int),
        decreases v.len() - i,
    {
        out.push(clone_input_value(&v[i]));
        proof {
            assert(out.deep_view() =~= v.deep_view().take(i + 1));
        }
        i = i + 1;
    }
    proof {
        assert(v.deep_view().take(v.len() as int) =~= v.deep_view());
    }
    out
}

/// Copies a directive definition.
pub fn clone_directive_definition(d: &DirectiveDefinition) -> (r: DirectiveDefinition)
    ensures
        r.deep_view() == d.deep_view(),
{
    let mut locations: Vec<DirectiveLocation> = Vec::new();
    let mut i: usize = 0;
    while i < d.locations.len()
        invariant
            0 <= i <= d.locations.len(),
            locations.len() == i,
            locations.deep_view() =~= d.locations.deep_view().take(i as int),
        decreases d.locations.len() - i,
    {
        locations.push(d.locations[i]);
        proof {
            assert(locations.deep_view() =~= d.locations.deep_view().take(i + 1));
        }
        i = i + 1;
    }
    proof {
        assert(d.locations.deep_view().take(d.locations.len() as int) =~= d.locations.deep_view());
    }
    DirectiveDefinition {
        name: d.name.clone(),
        description: clone_opt_string(&d.description),
        arguments: clone_input_values(&d.arguments),
        repeatable: d.repeatable,
        locations,
    }
}

/// One subgraph handed to composition: a unique name, a routing URL, and a
/// locally valid schema document.
#[derive(PartialEq, Eq)]
pub struct Subgraph {
    pub name: String,
    pub url: String,
    pub schema: Document,
}

#[verifier::ext_equal]
pub struct SubgraphV {
    pub name: Seq<char>,
    pub url: Seq<char>,
    pub schema: DocumentV,
}

impl DeepView for Subgraph {
    type V = SubgraphV;

    open spec fn deep_view(&self) -> SubgraphV {
        SubgraphV { name: self.name@, url: self.url@, schema: self.schema.deep_view() }
    }
}

} // verus!

verus! {

/// How one character appears inside a rendered string literal: quote and
/// backslash are escaped, everything else stands as itself.
pub open spec fn escape_char_v(c: char) -> Seq<char> {
    if c == '"' {
        seq!['\\', '"']
    } else if c == '\\' {
        seq!['\\', '\\']
    } else {
        seq![c]
    }
}

/// A string's characters, escaped for a rendered string literal.
pub open spec fn escape_str_v(s: Seq<char>) -> Seq<char>
    decreases s.len(),
{
    if s.len() == 0 {
        Seq::empty()
    } else {
        escape_str_v(s.drop_last()) + escape_char_v(s.last())
    }
}

/// The GraphQL text of a value, as diagnostics show it: `null`, bare enum
/// and numeric text, `$` before variables, quoted strings with `"` and `\`
/// escaped, bracketed lists and braced objects with `, ` between entries.
pub open spec fn render_value_v(v: ValueV) -> Seq<char>
    decreases v,
{
    match v {
        ValueV::Null => "null"@,
        ValueV::Enum(n) => n,
        ValueV::Variable(n) => "$"@ + n,
        ValueV::Str(s) => "\""@ + escape_str_v(s) + "\""@,
        ValueV::Int(t) => t,
        ValueV::Float(t) => t,
        ValueV::Boolean(b) => if b {
            "true"@
        } else {
            "false"@
        },
        ValueV::List(l) => "["@ + render_list_v(l) + "]"@,
        ValueV::Object(fs) => "{"@ + render_object_v(fs) + "}"@,
    }
}

pub open spec fn render_list_v(l: Seq<ValueV>) -> Seq<char>
    decreases l, 1int,
{
    if l.len() == 0 {
        Seq::empty()
    } else {
        render_value_v(l[0]) + render_list_rest_v(l.drop_first())
    }
}

pub open spec fn render_list_rest_v(l: Seq<ValueV>) -> Seq<char>
    decreases l, 0int,
{
    if l.len() == 0 {
        Seq::empty()
    } else {
        ", "@ + render_value_v(l[0]) + render_list_rest_v(l.drop_first())
    }
}

pub open spec fn render_object_v(fs: Seq<(Seq<char>, ValueV)>) -> Seq<char>
    decreases fs, 1int,
{
    if fs.len() == 0 {
        Seq::empty()
    } else {
        fs[0].0 + ": "@ + render_value_v(fs[0].1) + render_object_rest_v(fs.drop_first())
    }
}

pub open spec fn render_object_rest_v(fs: Seq<(Seq<char>, ValueV)>) -> Seq<char>
    decreases fs, 0int,
{
    if fs.len() == 0 {
        Seq::empty()
    } else {
        ", "@ + fs[0].0 + ": "@ + render_value_v(fs[0].1) + render_object_rest_v(fs.drop_first())
    }
}

/// Appends the string's characters with `"` and `\` escaped.
#[verifier::loop_isolation(false)]
fn append_escaped(out: &mut String, s: &str)
    ensures
        final(out)@ == old(out)@ + escape_str_v(s@),
{
    let n: usize = s.unicode_len();
    let mut i: usize = 0;
    proof {
        assert(s@.take(0) =~= Seq::<char>::empty());
        assert(out@ + escape_str_v(s@.take(0)) =~= out@);
    }
    while i < n
        invariant
            0 <= i <= n,
            n == s@.len(),
            out@ == old(out)@ + escape_str_v(s@.take(i as int)),
        decreases n - i,
    {
        proof {
            assert(s@.take(i + 1).drop_last() =~= s@.take(i as int));
            assert(s@.take(i + 1).last() == s@[i as int]);
        }
        let c = s.get_char(i);
        if c == '"' {
            out.append("\\\"");
            proof {
                reveal_strlit("\\\"");
                assert(out@ =~= old(out)@ + escape_str_v(s@.take(i + 1)));
            }
        } else if c == '\\' {
            out.append("\\\\");
            proof {
                reveal_strlit("\\\\");
                assert(out@ =~= old(out)@ + escape_str_v(s@.take(i + 1)));
            }
        } else {
            let piece = s.substring_char(i, i + 1);
            out.append(piece);
            proof {
                assert(piece@ =~= seq![s@[i as int]]);
                assert(out@ =~= old(out)@ + escape_str_v(s@.take(i + 1)));
            }
        }
        i = i + 1;
    }
    proof {
        assert(s@.take(n as int) =~= s@);
    }
}

/// Appends the GraphQL text of the value, as [`render_value_v`] gives it.
#[verifier::loop_isolation(false)]
#[verifier::rlimit(60)]
fn append_value(out: &mut String, v: &Value)
    ensures
        final(out)@ == old(out)@ + render_value_v(v.deep_view()),
    decreases *v,
{
    proof {
        broadcast use lemma_value_seq_view_props;
        broadcast use lemma_value_pair_seq_view_props;

    }
    match v {
        Value::Null => {
            out.append("null");
        },
        Value::Enum(n) => {
            out.append(n.as_str());
        },
        Value::Variable(n) => {
            out.append("$");
            out.append(n.as_str());
            proof {
                assert(out@ =~= old(out)@ + render_value_v(v.deep_view()));
            }
        },
        Value::Str(s) => {
            out.append("\"");
            append_escaped(out, s.as_str());
            out.append("\"");
            proof {
                assert(out@ =~= old(out)@ + render_value_v(v.deep_view()));
            }
        },
        Value::Int(t) => {
            out.append(t.as_str());
        },
        Value::Float(t) => {
            out.append(t.as_str());
        },
        Value::Boolean(b) => {
            if *b {
                out.append("true");
            } else {
                out.append("false");
            }
        },
        Value::List(l) => {
            out.append("[");
            let ghost lv = value_seq_view(l@);
            let mut i: usize = 0;
            while i < l.len()
                invariant
                    0 <= i <= l.len(),
                    i == 0 ==> out@ == old(out)@ + "["@,
                    i > 0 ==> out@ + render_list_rest_v(lv.skip(i as int)) == old(out)@ + "["@
                        + render_list_v(lv),
                decreases l.len() - i,
            {
                proof {
                    assert(lv.skip(i as int)[0] == lv[i as int]);
                    assert(lv[i as int] == value_view(l@[i as int]));
                    assert(lv.skip(i as int).drop_first() =~= lv.skip(i + 1));
                    assert(v is List);
                    assert(v->List_0 == *l);
                    assert(decreases_to!(*v => v->List_0));
                    assert(decreases_to!(v->List_0 => v->List_0@));
                    assert(decreases_to!(v->List_0@ => v->List_0@[i as int]));
                }
                if i > 0 {
                    out.append(", ");
                }
                append_value(out, &l[i]);
                proof {
                    if i == 0 {
                        assert(lv.skip(0) =~= lv);
                        assert(out@ + render_list_rest_v(lv.skip(1)) =~= old(out)@ + "["@
                            + render_list_v(lv));
                    } else {
                        assert(out@ + render_list_rest_v(lv.skip(i + 1)) =~= old(out)@ + "["@
                            + render_list_v(lv));
                    }
                }
                i = i + 1;
            }
            out.append("]");
            proof {
                if l.len() == 0 {
                    assert(render_list_v(lv) =~= Seq::<char>::empty());
                } else {
                    assert(lv.skip(l.len() as int) =~= Seq::<ValueV>::empty());
                }
                assert(out@ =~= old(out)@ + render_value_v(v.deep_view()));
            }
        },
        Value::Object(fs) => {
            out.append("{");
            let ghost fv = value_pair_seq_view(fs@);
            let mut i: usize = 0;
            while i < fs.len()
                invariant
                    0 <= i <= fs.len(),
                    i == 0 ==> out@ == old(out)@ + "{"@,
                    i > 0 ==> out@ + render_object_rest_v(fv.skip(i as int)) == old(out)@ + "{"@
                        + render_object_v(fv),
                decreases fs.len() - i,
            {
                proof {
                    assert(fv.skip(i as int)[0] == fv[i as int]);
                    assert(fv[i as int] == (fs@[i as int].0@, value_view(fs@[i as int].1)));
                    assert(fv.skip(i as int).drop_first() =~= fv.skip(i + 1));
                    assert(v is Object);
                    assert(v->Object_0 == *fs);
                    assert(decreases_to!(*v => v->Object_0));
                    assert(decreases_to!(v->Object_0 => v->Object_0@));
                    assert(decreases_to!(v->Object_0@ => v->Object_0@[i as int]));
                    assert(decreases_to!(v->Object_0@[i as int] => v->Object_0@[i as int].1));
                }
                if i > 0 {
                    out.append(", ");
                }
                let pair = &fs[i];
                out.append(pair.0.as_str());
                out.append(": ");
                append_value(out, &pair.1);
                proof {
                    if i == 0 {
                        assert(fv.skip(0) =~= fv);
                        assert(out@ + render_object_rest_v(fv.skip(1)) =~= old(out)@ + "{"@
                            + render_object_v(fv));
                    } else {
                        assert(out@ + render_object_rest_v(fv.skip(i + 1)) =~= old(out)@ + "{"@
                            + render_object_v(fv));
                    }
                }
                i = i + 1;
            }
            out.append("}");
            proof {
                if fs.len() == 0 {
                    assert(render_object_v(fv) =~= Seq::<char>::empty());
                } else {
                    assert(fv.skip(fs.len() as int) =~= Seq::<(Seq<char>, ValueV)>::empty());
                }
                assert(out@ =~= old(out)@ + render_value_v(v.deep_view()));
            }
        },
    }
}

/// Renders the GraphQL text of the value, for diagnostics.
pub fn render_value(v: &Value) -> (r: String)
    ensures
        r@ == render_value_v(v.deep_view()),
{
    let mut out: String = "".to_owned();
    proof {
        reveal_strlit("");
        assert(out@ =~= Seq::<char>::empty());
    }
    append_value(&mut out, v);
    proof {
        assert(out@ =~= render_value_v(v.deep_view()));
    }
    out
}

} // verus!
