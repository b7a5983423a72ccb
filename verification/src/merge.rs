//! The composition engine: merges a set of subgraph schema documents into
//! one supergraph document annotated with the `join` spec directives.
//!
//! Subgraphs are stable-sorted by name, each contributes a `join__Graph`
//! enum token, the skeleton from [`crate::bootstrap`] is installed, and then
//! every mergeable named type of every subgraph is folded into the
//! supergraph by a per-kind rule.  The whole algorithm is a function of the
//! sorted input, which the contracts state exactly.

use vstd::prelude::*;
use vstd::string::StrSliceExecFns;
use crate::document::Argument;
use crate::document::ArgumentV;
use crate::document::Directive;
use crate::document::DirectiveDefinition;
use crate::document::DirectiveDefinitionV;
use crate::document::DirectiveLocation;
use crate::document::DirectiveV;
use crate::document::FieldDefinitionV;
use crate::document::InputValueV;
use crate::document::TypeEntry;
use crate::document::TypeEntryV;
use crate::document::Value;
use crate::document::ValueV;
use crate::text::is_prefix;
use crate::text::has_prefix;
use crate::text::str_eq;
use crate::text::ws_tokens;
use crate::text::split_whitespace_owned;

verus! {

// ---------------------------------------------------------------------------
// Lookups
// ---------------------------------------------------------------------------

/// The index of the first type entry with the given name, or `-1`.
pub open spec fn find_type(types: Seq<TypeEntryV>, name: Seq<char>) -> int
    decreases types.len(),
{
    if types.len() == 0 {
        -1
    } else if types[0].name == name {
        0
    } else {
        let r = find_type(types.drop_first(), name);
        if r == -1 {
            -1
        } else {
            r + 1
        }
    }
}

/// What `find_type` returns: the first index carrying the name, or `-1`.
pub broadcast proof fn lemma_find_type(types: Seq<TypeEntryV>, name: Seq<char>)
    ensures
        -1 <= #[trigger] find_type(types, name) < types.len(),
        find_type(types, name) == -1 <==> (forall|k: int|
            0 <= k < types.len() ==> (#[trigger] types[k].name) != name),
        find_type(types, name) >= 0 ==> types[find_type(types, name)].name == name,
        find_type(types, name) >= 0 ==> (forall|k: int|
            0 <= k < find_type(types, name) ==> (#[trigger] types[k].name) != name),
    decreases types.len(),
{
    if types.len() > 0 {
        lemma_find_type(types.drop_first(), name);
        assert(forall|k: int|
            1 <= k < types.len() ==> types[k] == #[trigger] types.drop_first()[k - 1]);
        if types[0].name != name {
            let r = find_type(types.drop_first(), name);
            if r == -1 {
                assert forall|k: int| 0 <= k < types.len() implies (#[trigger] types[k].name)
                    != name by {
                    if k >= 1 {
                        assert(types.drop_first()[k - 1].name != name);
                    }
                }
            } else {
                assert(types[r + 1].name == name);
                assert forall|k: int| 0 <= k < r + 1 implies (#[trigger] types[k].name) != name by {
                    if k >= 1 {
                        assert(types.drop_first()[k - 1].name != name);
                    }
                }
            }
        }
    }
}

/// Finds the index of the type entry with the given name.
pub fn find_type_entry(types: &Vec<TypeEntry>, name: &str) -> (r: Option<usize>)
    ensures
        (match r {
            Some(i) => 0 <= i < types.len() && find_type(types.deep_view(), name@) == i as int,
            None => find_type(types.deep_view(), name@) == -1,
        }),
{
    let mut i: usize = 0;
    while i < types.len()
        invariant
            0 <= i <= types.len(),
            forall|k: int| 0 <= k < i ==> (#[trigger] types.deep_view()[k].name) != name@,
        decreases types.len() - i,
    {
        if str_eq(types[i].name.as_str(), name) {
            proof {
                lemma_find_type(types.deep_view(), name@);
                assert(types.deep_view()[i as int].name == name@);
            }
            return Some(i);
        }
        proof {
            assert(types.deep_view()[i as int].name != name@);
        }
        i = i + 1;
    }
    proof {
        lemma_find_type(types.deep_view(), name@);
    }
    None
}

/// The index of the first field with the given name, or `-1`.
pub open spec fn find_field(fields: Seq<FieldDefinitionV>, name: Seq<char>) -> int
    decreases fields.len(),
{
    if fields.len() == 0 {
        -1
    } else if fields[0].name == name {
        0
    } else {
        let r = find_field(fields.drop_first(), name);
        if r == -1 {
            -1
        } else {
            r + 1
        }
    }
}

/// What `find_field` returns: the first index carrying the name, or `-1`.
pub broadcast proof fn lemma_find_field(fields: Seq<FieldDefinitionV>, name: Seq<char>)
    ensures
        -1 <= #[trigger] find_field(fields, name) < fields.len(),
        find_field(fields, name) == -1 <==> (forall|k: int|
            0 <= k < fields.len() ==> (#[trigger] fields[k].name) != name),
        find_field(fields, name) >= 0 ==> fields[find_field(fields, name)].name == name,
        find_field(fields, name) >= 0 ==> (forall|k: int|
            0 <= k < find_field(fields, name) ==> (#[trigger] fields[k].name) != name),
    decreases fields.len(),
{
    if fields.len() > 0 {
        lemma_find_field(fields.drop_first(), name);
        assert(forall|k: int|
            1 <= k < fields.len() ==> fields[k] == #[trigger] fields.drop_first()[k - 1]);
        if fields[0].name != name {
            let r = find_field(fields.drop_first(), name);
            if r == -1 {
                assert forall|k: int| 0 <= k < fields.len() implies (#[trigger] fields[k].name)
                    != name by {
                    if k >= 1 {
                        assert(fields.drop_first()[k - 1].name != name);
                    }
                }
            } else {
                assert(fields[r + 1].name == name);
                assert forall|k: int| 0 <= k < r + 1 implies (#[trigger] fields[k].name)
                    != name by {
                    if k >= 1 {
                        assert(fields.drop_first()[k - 1].name != name);
                    }
                }
            }
        }
    }
}

/// The index of the first directive definition with the given name, or `-1`.
pub open spec fn find_directive_definition(defs: Seq<DirectiveDefinitionV>, name: Seq<char>) -> int
    decreases defs.len(),
{
    if defs.len() == 0 {
        -1
    } else if defs[0].name == name {
        0
    } else {
        let r = find_directive_definition(defs.drop_first(), name);
        if r == -1 {
            -1
        } else {
            r + 1
        }
    }
}

/// What `find_directive_definition` returns.
pub broadcast proof fn lemma_find_directive_definition(
    defs: Seq<DirectiveDefinitionV>,
    name: Seq<char>,
)
    ensures
        -1 <= #[trigger] find_directive_definition(defs, name) < defs.len(),
        find_directive_definition(defs, name) == -1 <==> (forall|k: int|
            0 <= k < defs.len() ==> (#[trigger] defs[k].name) != name),
        find_directive_definition(defs, name) >= 0 ==> defs[find_directive_definition(
            defs,
            name,
        )].name == name,
        find_directive_definition(defs, name) >= 0 ==> (forall|k: int|
            0 <= k < find_directive_definition(defs, name) ==> (#[trigger] defs[k].name) != name),
    decreases defs.len(),
{
    if defs.len() > 0 {
        lemma_find_directive_definition(defs.drop_first(), name);
        assert(forall|k: int|
            1 <= k < defs.len() ==> defs[k] == #[trigger] defs.drop_first()[k - 1]);
        if defs[0].name != name {
            let r = find_directive_definition(defs.drop_first(), name);
            if r == -1 {
                assert forall|k: int| 0 <= k < defs.len() implies (#[trigger] defs[k].name)
                    != name by {
                    if k >= 1 {
                        assert(defs.drop_first()[k - 1].name != name);
                    }
                }
            } else {
                assert(defs[r + 1].name == name);
                assert forall|k: int| 0 <= k < r + 1 implies (#[trigger] defs[k].name) != name by {
                    if k >= 1 {
                        assert(defs.drop_first()[k - 1].name != name);
                    }
                }
            }
        }
    }
}

// ---------------------------------------------------------------------------
// Directive applications and their arguments
// ---------------------------------------------------------------------------

/// The value of the first argument with the given name.
pub open spec fn arg_value(d: DirectiveV, name: Seq<char>) -> Option<ValueV>
    decreases d.arguments.len(),
{
    if d.arguments.len() == 0 {
        None
    } else if d.arguments[0].name == name {
        Some(d.arguments[0].value)
    } else {
        arg_value(DirectiveV { arguments: d.arguments.drop_first(), ..d }, name)
    }
}

/// The first argument with the given name when it holds a string.
pub open spec fn str_arg(d: DirectiveV, name: Seq<char>) -> Option<Seq<char>> {
    match arg_value(d, name) {
        Some(ValueV::Str(s)) => Some(s),
        _ => None,
    }
}

/// The first argument with the given name when it holds a boolean.
pub open spec fn bool_arg(d: DirectiveV, name: Seq<char>) -> Option<bool> {
    match arg_value(d, name) {
        Some(ValueV::Boolean(b)) => Some(b),
        _ => None,
    }
}

/// Returns the value of the first argument with the given name.
pub fn directive_arg_value<'a>(d: &'a Directive, arg_name: &str) -> (r: Option<&'a Value>)
    ensures
        r.deep_view() == arg_value(d.deep_view(), arg_name@),
{
    let mut i: usize = 0;
    proof {
        assert(d.deep_view().arguments.skip(0) =~= d.deep_view().arguments);
    }
    while i < d.arguments.len()
        invariant
            0 <= i <= d.arguments.len(),
            arg_value(d.deep_view(), arg_name@) == arg_value(
                DirectiveV {
                    arguments: d.deep_view().arguments.skip(i as int),
                    ..d.deep_view()
                },
                arg_name@,
            ),
        decreases d.arguments.len() - i,
    {
        proof {
            assert(d.deep_view().arguments.skip(i as int)[0] == d.deep_view().arguments[i as int]);
            assert(d.deep_view().arguments.skip(i as int).drop_first() =~= d.deep_view(
            ).arguments.skip(i + 1));
        }
        if str_eq(d.arguments[i].name.as_str(), arg_name) {
            return Some(&d.arguments[i].value);
        }
        i = i + 1;
    }
    proof {
        assert(d.deep_view().arguments.skip(d.arguments.len() as int) =~= Seq::<
            ArgumentV,
        >::empty());
    }
    None
}

/// Returns the string held by the named argument, if it is a string.
pub fn directive_string_arg_value<'a>(d: &'a Directive, arg_name: &str) -> (r: Option<&'a String>)
    ensures
        r.deep_view() == str_arg(d.deep_view(), arg_name@),
{
    match directive_arg_value(d, arg_name) {
        Some(Value::Str(s)) => Some(s),
        _ => None,
    }
}

/// Returns the boolean held by the named argument, if it is a boolean.
pub fn directive_bool_arg_value(d: &Directive, arg_name: &str) -> (r: Option<bool>)
    ensures
        r == bool_arg(d.deep_view(), arg_name@),
{
    match directive_arg_value(d, arg_name) {
        Some(Value::Boolean(b)) => Some(*b),
        _ => None,
    }
}

/// The directives with the given name, in order.
pub open spec fn filter_named(ds: Seq<DirectiveV>, name: Seq<char>) -> Seq<DirectiveV>
    decreases ds.len(),
{
    if ds.len() == 0 {
        Seq::empty()
    } else {
        let init = filter_named(ds.drop_last(), name);
        if ds.last().name == name {
            init.push(ds.last())
        } else {
            init
        }
    }
}

/// Collects the directives with the given name, in order.
#[verifier::loop_isolation(false)]
pub fn directives_named<'a>(ds: &'a Vec<Directive>, name: &str) -> (r: Vec<&'a Directive>)
    ensures
        r.deep_view() == filter_named(ds.deep_view(), name@),
{
    let mut out: Vec<&'a Directive> = Vec::new();
    let mut i: usize = 0;
    proof {
        assert(out.deep_view() =~= filter_named(ds.deep_view().take(0), name@));
    }
    while i < ds.len()
        invariant
            0 <= i <= ds.len(),
            out.deep_view() == filter_named(ds.deep_view().take(i as int), name@),
        decreases ds.len() - i,
    {
        proof {
            assert(ds.deep_view().take(i + 1).drop_last() =~= ds.deep_view().take(i as int));
            assert(ds.deep_view().take(i + 1).last() == ds.deep_view()[i as int]);
        }
        if str_eq(ds[i].name.as_str(), name) {
            out.push(&ds[i]);
            proof {
                assert(out.deep_view() =~= filter_named(ds.deep_view().take(i + 1), name@));
            }
        } else {
            proof {
                assert(out.deep_view() =~= filter_named(ds.deep_view().take(i + 1), name@));
            }
        }
        i = i + 1;
    }
    proof {
        assert(ds.deep_view().take(ds.len() as int) =~= ds.deep_view());
    }
    out
}

/// Whether some directive in the list has the given name.
pub open spec fn has_named(ds: Seq<DirectiveV>, name: Seq<char>) -> bool {
    exists|k: int| 0 <= k < ds.len() && (#[trigger] ds[k].name) == name
}

/// Whether the directive list holds an application with the given name.
pub fn has_directive(ds: &Vec<Directive>, name: &str) -> (r: bool)
    ensures
        r == has_named(ds.deep_view(), name@),
{
    let mut i: usize = 0;
    while i < ds.len()
        invariant
            0 <= i <= ds.len(),
            forall|k: int| 0 <= k < i ==> (#[trigger] ds.deep_view()[k].name) != name@,
        decreases ds.len() - i,
    {
        if str_eq(ds[i].name.as_str(), name) {
            proof {
                assert(ds.deep_view()[i as int].name == name@);
            }
            return true;
        }
        proof {
            assert(ds.deep_view()[i as int].name != name@);
        }
        i = i + 1;
    }
    proof {
        if has_named(ds.deep_view(), name@) {
            let k = choose|k: int|
                0 <= k < ds.deep_view().len() && (#[trigger] ds.deep_view()[k].name) == name@;
            assert(ds.deep_view()[k].name != name@);
        }
    }
    false
}

/// The first directive with the given name.
pub open spec fn first_named(ds: Seq<DirectiveV>, name: Seq<char>) -> Option<DirectiveV>
    decreases ds.len(),
{
    if ds.len() == 0 {
        None
    } else if ds[0].name == name {
        Some(ds[0])
    } else {
        first_named(ds.drop_first(), name)
    }
}

/// Returns the first directive with the given name.
pub fn first_directive_named<'a>(ds: &'a Vec<Directive>, name: &str) -> (r: Option<&'a Directive>)
    ensures
        r.deep_view() == first_named(ds.deep_view(), name@),
{
    let mut i: usize = 0;
    proof {
        assert(ds.deep_view().skip(0) =~= ds.deep_view());
    }
    while i < ds.len()
        invariant
            0 <= i <= ds.len(),
            first_named(ds.deep_view(), name@) == first_named(
                ds.deep_view().skip(i as int),
                name@,
            ),
        decreases ds.len() - i,
    {
        proof {
            assert(ds.deep_view().skip(i as int)[0] == ds.deep_view()[i as int]);
            assert(ds.deep_view().skip(i as int).drop_first() =~= ds.deep_view().skip(i + 1));
        }
        if str_eq(ds[i].name.as_str(), name) {
            return Some(&ds[i]);
        }
        i = i + 1;
    }
    proof {
        assert(ds.deep_view().skip(ds.len() as int) =~= Seq::<DirectiveV>::empty());
    }
    None
}

// ---------------------------------------------------------------------------
// Key field sets
// ---------------------------------------------------------------------------

/// The `fields` string of a `@key` application, or empty when absent.
pub open spec fn key_fields_of(d: DirectiveV) -> Seq<char> {
    match str_arg(d, "fields"@) {
        Some(f) => f,
        None => Seq::empty(),
    }
}

/// The whitespace-separated top-level field names collected from the given
/// `@key` applications, in order, repeats kept.
pub open spec fn key_tokens(kds: Seq<DirectiveV>) -> Seq<Seq<char>>
    decreases kds.len(),
{
    if kds.len() == 0 {
        Seq::empty()
    } else {
        key_tokens(kds.drop_last()) + ws_tokens(key_fields_of(kds.last()))
    }
}

/// Every listed directive carries a string `fields` argument.
pub open spec fn key_directives_wf(kds: Seq<DirectiveV>) -> bool {
    forall|k: int| 0 <= k < kds.len() ==> (#[trigger] str_arg(kds[k], "fields"@)) is Some
}

/// Collects the key field names named by the given `@key` applications.
#[verifier::loop_isolation(false)]
pub fn parse_keys(key_directives: &Vec<&Directive>) -> (r: Vec<String>)
    requires
        key_directives_wf(key_directives.deep_view()),
    ensures
        r.deep_view() == key_tokens(key_directives.deep_view()),
{
    let mut out: Vec<String> = Vec::new();
    let mut i: usize = 0;
    proof {
        assert(out.deep_view() =~= key_tokens(key_directives.deep_view().take(0)));
    }
    while i < key_directives.len()
        invariant
            0 <= i <= key_directives.len(),
            out.deep_view() == key_tokens(key_directives.deep_view().take(i as int)),
        decreases key_directives.len() - i,
    {
        proof {
            assert(key_directives.deep_view().take(i + 1).drop_last() =~= key_directives
                .deep_view().take(i as int));
            assert(key_directives.deep_view().take(i + 1).last() == key_directives.deep_view()[
                i as int]);
            assert(str_arg(key_directives.deep_view()[i as int], "fields"@) is Some);
        }
        let d: &Directive = key_directives[i];
        let fields = match directive_string_arg_value(d, "fields") {
            Some(f) => f,
            None => {
                proof {
                    assert(false);
                }
                unreached()
            },
        };
        let mut tokens = split_whitespace_owned(fields.as_str());
        let ghost out_before = out.deep_view();
        let ghost toks = tokens.deep_view();
        let mut j: usize = 0;
        while j < tokens.len()
            invariant
                0 <= j <= tokens.len(),
                tokens.deep_view() == toks,
                out.len() == out_before.len() + j,
                out.deep_view() =~= out_before + toks.take(j as int),
            decreases tokens.len() - j,
        {
            let x = tokens[j].clone();
            let ghost prev = out.deep_view();
            out.push(x);
            proof {
                assert(tokens.deep_view()[j as int] == tokens@[j as int]@);
                assert(out.deep_view() =~= prev.push(toks[j as int]));
                assert(out.deep_view() =~= out_before + toks.take(j + 1));
            }
            j = j + 1;
        }
        proof {
            assert(toks.take(toks.len() as int) =~= toks);
            assert(out.deep_view() =~= key_tokens(key_directives.deep_view().take(i + 1)));
        }
        i = i + 1;
    }
    proof {
        assert(key_directives.deep_view().take(key_directives.len() as int) =~= key_directives
            .deep_view());
    }
    out
}

/// Whether a name is one of the collected key field names.
pub fn contains_name(names: &Vec<String>, name: &str) -> (r: bool)
    ensures
        r == names.deep_view().contains(name@),
{
    let mut i: usize = 0;
    while i < names.len()
        invariant
            0 <= i <= names.len(),
            forall|k: int| 0 <= k < i ==> (#[trigger] names.deep_view()[k]) != name@,
        decreases names.len() - i,
    {
        if str_eq(names[i].as_str(), name) {
            proof {
                assert(names.deep_view()[i as int] == name@);
            }
            return true;
        }
        i = i + 1;
    }
    proof {
        if names.deep_view().contains(name@) {
            let k = choose|k: int|
                0 <= k < names.deep_view().len() && names.deep_view()[k] == name@;
            assert(names.deep_view()[k] != name@);
        }
    }
    false
}

// ---------------------------------------------------------------------------
// What is merged at all
// ---------------------------------------------------------------------------

/// Whether a type name takes part in composition: federation-internal names
/// and spec-namespaced names are skipped.
pub open spec fn mergeable_type_name(name: Seq<char>) -> bool {
    !is_prefix(name, "federation__"@) && !is_prefix(name, "link__"@) && name != "_Any"@ && name
        != "_Entity"@ && name != "_Service"@ && name != "@key"@
}

/// Whether a type of this name is merged into the supergraph; the
/// federation-internal family and spec-namespaced types are not.
pub fn is_mergeable_type(name: &str) -> (r: bool)
    ensures
        r == mergeable_type_name(name@),
{
    if has_prefix(name, "federation__") || has_prefix(name, "link__") {
        return false;
    }
    !(str_eq(name, "_Any") || str_eq(name, "_Entity") || str_eq(name, "_Service") || str_eq(
        name,
        "@key",
    ))
}

/// Whether a directive definition may be used in executable documents.
pub open spec fn executable_directive(d: DirectiveDefinitionV) -> bool {
    d.locations.contains(DirectiveLocation::Query) || d.locations.contains(
        DirectiveLocation::Mutation,
    ) || d.locations.contains(DirectiveLocation::Subscription) || d.locations.contains(
        DirectiveLocation::Field,
    ) || d.locations.contains(DirectiveLocation::FragmentDefinition) || d.locations.contains(
        DirectiveLocation::FragmentSpread,
    ) || d.locations.contains(DirectiveLocation::InlineFragment) || d.locations.contains(
        DirectiveLocation::VariableDefinition,
    )
}

fn is_executable_location(loc: DirectiveLocation) -> (r: bool)
    ensures
        r == (loc == DirectiveLocation::Query || loc == DirectiveLocation::Mutation || loc
            == DirectiveLocation::Subscription || loc == DirectiveLocation::Field || loc
            == DirectiveLocation::FragmentDefinition || loc == DirectiveLocation::FragmentSpread
            || loc == DirectiveLocation::InlineFragment || loc
            == DirectiveLocation::VariableDefinition),
{
    match loc {
        DirectiveLocation::Query => true,
        DirectiveLocation::Mutation => true,
        DirectiveLocation::Subscription => true,
        DirectiveLocation::Field => true,
        DirectiveLocation::FragmentDefinition => true,
        DirectiveLocation::FragmentSpread => true,
        DirectiveLocation::InlineFragment => true,
        DirectiveLocation::VariableDefinition => true,
        _ => false,
    }
}

/// Whether the directive definition has an executable location.
pub fn is_executable_directive(directive: &DirectiveDefinition) -> (r: bool)
    ensures
        r == executable_directive(directive.deep_view()),
{
    let mut i: usize = 0;
    while i < directive.locations.len()
        invariant
            0 <= i <= directive.locations.len(),
            forall|k: int|
                0 <= k < i ==> !(#[trigger] directive.deep_view().locations[k]
                    == DirectiveLocation::Query || directive.deep_view().locations[k]
                    == DirectiveLocation::Mutation || directive.deep_view().locations[k]
                    == DirectiveLocation::Subscription || directive.deep_view().locations[k]
                    == DirectiveLocation::Field || directive.deep_view().locations[k]
                    == DirectiveLocation::FragmentDefinition || directive.deep_view().locations[k]
                    == DirectiveLocation::FragmentSpread || directive.deep_view().locations[k]
                    == DirectiveLocation::InlineFragment || directive.deep_view().locations[k]
                    == DirectiveLocation::VariableDefinition),
        decreases directive.locations.len() - i,
    {
        let loc = directive.locations[i];
        if is_executable_location(loc) {
            proof {
                assert(directive.deep_view().locations[i as int] == loc);
            }
            return true;
        }
        i = i + 1;
    }
    proof {
        if executable_directive(directive.deep_view()) {
            let locs = directive.deep_view().locations;
            if locs.contains(DirectiveLocation::Query) {
                let k = choose|k: int| 0 <= k < locs.len() && locs[k] == DirectiveLocation::Query;
                assert(locs[k] == DirectiveLocation::Query);
            } else if locs.contains(DirectiveLocation::Mutation) {
                let k = choose|k: int|
                    0 <= k < locs.len() && locs[k] == DirectiveLocation::Mutation;
                assert(locs[k] == DirectiveLocation::Mutation);
            } else if locs.contains(DirectiveLocation::Subscription) {
                let k = choose|k: int|
                    0 <= k < locs.len() && locs[k] == DirectiveLocation::Subscription;
                assert(locs[k] == DirectiveLocation::Subscription);
            } else if locs.contains(DirectiveLocation::Field) {
                let k = choose|k: int| 0 <= k < locs.len() && locs[k] == DirectiveLocation::Field;
                assert(locs[k] == DirectiveLocation::Field);
            } else if locs.contains(DirectiveLocation::FragmentDefinition) {
                let k = choose|k: int|
                    0 <= k < locs.len() && locs[k] == DirectiveLocation::FragmentDefinition;
                assert(locs[k] == DirectiveLocation::FragmentDefinition);
            } else if locs.contains(DirectiveLocation::FragmentSpread) {
                let k = choose|k: int|
                    0 <= k < locs.len() && locs[k] == DirectiveLocation::FragmentSpread;
                assert(locs[k] == DirectiveLocation::FragmentSpread);
            } else if locs.contains(DirectiveLocation::InlineFragment) {
                let k = choose|k: int|
                    0 <= k < locs.len() && locs[k] == DirectiveLocation::InlineFragment;
                assert(locs[k] == DirectiveLocation::InlineFragment);
            } else {
                let k = choose|k: int|
                    0 <= k < locs.len() && locs[k] == DirectiveLocation::VariableDefinition;
                assert(locs[k] == DirectiveLocation::VariableDefinition);
            }
        }
    }
    false
}

/// The directive definition names the GraphQL language itself reserves;
/// every document is born with these, so composition never re-adds one.
pub open spec fn reserved_directive_name(name: Seq<char>) -> bool {
    name == "skip"@ || name == "include"@ || name == "deprecated"@ || name == "specifiedBy"@
}

/// What merging one directive definition does: first writer wins, with no
/// shape-compatibility check.
pub open spec fn merge_directive_v(
    defs: Seq<DirectiveDefinitionV>,
    d: DirectiveDefinitionV,
) -> Seq<DirectiveDefinitionV> {
    if find_directive_definition(defs, d.name) != -1 {
        defs
    } else {
        defs.push(d)
    }
}

/// Adds a directive definition to the supergraph set unless its name is
/// already taken.
#[verifier::loop_isolation(false)]
pub fn merge_directive(
    supergraph_directives: &mut Vec<DirectiveDefinition>,
    directive: &DirectiveDefinition,
)
    ensures
        final(supergraph_directives).deep_view() == merge_directive_v(
            old(supergraph_directives).deep_view(),
            directive.deep_view(),
        ),
{
    let name = &directive.name;
    let mut i: usize = 0;
    while i < supergraph_directives.len()
        invariant
            0 <= i <= supergraph_directives.len(),
            forall|k: int|
                0 <= k < i ==> (#[trigger] supergraph_directives.deep_view()[k].name)
                    != directive.deep_view().name,
        decreases supergraph_directives.len() - i,
    {
        if str_eq(supergraph_directives[i].name.as_str(), name.as_str()) {
            proof {
                lemma_find_directive_definition(
                    supergraph_directives.deep_view(),
                    directive.deep_view().name,
                );
                assert(supergraph_directives.deep_view()[i as int].name == directive.deep_view(
                ).name);
            }
            return ;
        }
        proof {
            assert(supergraph_directives.deep_view()[i as int].name != directive.deep_view().name);
        }
        i = i + 1;
    }
    proof {
        lemma_find_directive_definition(
            supergraph_directives.deep_view(),
            directive.deep_view().name,
        );
    }
    let copied = crate::document::clone_directive_definition(directive);
    let ghost before = supergraph_directives.deep_view();
    supergraph_directives.push(copied);
    proof {
        assert(supergraph_directives.deep_view() =~= before.push(directive.deep_view()));
    }
}

} // verus!

verus! {

// ---------------------------------------------------------------------------
// Join directive applications
// ---------------------------------------------------------------------------

/// The `graph: TOKEN` argument every join directive starts with.
pub open spec fn graph_argument_v(token: Seq<char>) -> ArgumentV {
    ArgumentV { name: "graph"@, value: ValueV::Enum(token) }
}

fn graph_argument(token: &String) -> (r: Argument)
    ensures
        r.deep_view() == graph_argument_v(token@),
{
    let r = Argument { name: "graph".to_owned(), value: Value::Enum(token.clone()) };
    proof {
        assert(r.deep_view() == graph_argument_v(token@));
    }
    r
}

/// The `@join__type` application without a key.
pub open spec fn base_join_type_v(token: Seq<char>, is_interface_object: bool) -> DirectiveV {
    DirectiveV {
        name: "join__type"@,
        arguments: seq![graph_argument_v(token)] + (if is_interface_object {
            seq![ArgumentV { name: "isInterfaceObject"@, value: ValueV::Boolean(true) }]
        } else {
            Seq::empty()
        }),
    }
}

/// The `@join__type` application carrying one key's field set, plus
/// `resolvable: false` when the key says so.
pub open spec fn keyed_join_type_v(
    token: Seq<char>,
    is_interface_object: bool,
    key_directive: DirectiveV,
) -> DirectiveV {
    DirectiveV {
        name: "join__type"@,
        arguments: base_join_type_v(token, is_interface_object).arguments + seq![
            ArgumentV { name: "key"@, value: ValueV::Str(key_fields_of(key_directive)) },
        ] + (if bool_arg(key_directive, "resolvable"@) == Some(false) {
            seq![ArgumentV { name: "resolvable"@, value: ValueV::Boolean(false) }]
        } else {
            Seq::empty()
        }),
    }
}

/// The `@join__type` applications a type receives from one subgraph: one per
/// key, or a single graph-only application when it has no keys.
pub open spec fn join_type_applied_v(
    token: Seq<char>,
    key_directives: Seq<DirectiveV>,
    is_interface_object: bool,
) -> Seq<DirectiveV> {
    if key_directives.len() == 0 {
        seq![base_join_type_v(token, is_interface_object)]
    } else {
        Seq::new(
            key_directives.len(),
            |i: int| keyed_join_type_v(token, is_interface_object, key_directives[i]),
        )
    }
}

/// Builds the `@join__type` applications for one subgraph's view of a type.
#[verifier::loop_isolation(false)]
pub fn join_type_applied_directive(
    subgraph_name: &String,
    key_directives: &Vec<&Directive>,
    is_interface_object: bool,
) -> (r: Vec<Directive>)
    requires
        key_directives_wf(key_directives.deep_view()),
    ensures
        r.deep_view() == join_type_applied_v(
            subgraph_name@,
            key_directives.deep_view(),
            is_interface_object,
        ),
{
    let mut out: Vec<Directive> = Vec::new();
    if key_directives.len() == 0 {
        let mut arguments: Vec<Argument> = Vec::new();
        arguments.push(graph_argument(subgraph_name));
        if is_interface_object {
            arguments.push(
                Argument { name: "isInterfaceObject".to_owned(), value: Value::Boolean(true) },
            );
        }
        let base = Directive { name: "join__type".to_owned(), arguments };
        proof {
            assert(base.deep_view().arguments =~~= base_join_type_v(
                subgraph_name@,
                is_interface_object,
            ).arguments);
            assert(base.deep_view() =~~= base_join_type_v(subgraph_name@, is_interface_object));
        }
        out.push(base);
        proof {
            assert(out.deep_view() =~~= join_type_applied_v(
                subgraph_name@,
                key_directives.deep_view(),
                is_interface_object,
            ));
        }
        return out;
    }
    let mut i: usize = 0;
    while i < key_directives.len()
        invariant
            0 <= i <= key_directives.len(),
            out.len() == i,
            forall|k: int|
                0 <= k < i ==> (#[trigger] out.deep_view()[k]) == keyed_join_type_v(
                    subgraph_name@,
                    is_interface_object,
                    key_directives.deep_view()[k],
                ),
        decreases key_directives.len() - i,
    {
        let kd: &Directive = key_directives[i];
        proof {
            assert(str_arg(key_directives.deep_view()[i as int], "fields"@) is Some);
        }
        let field_set = match directive_string_arg_value(kd, "fields") {
            Some(f) => f,
            None => {
                proof {
                    assert(false);
                }
                unreached()
            },
        };
        let mut arguments: Vec<Argument> = Vec::new();
        arguments.push(graph_argument(subgraph_name));
        if is_interface_object {
            arguments.push(
                Argument { name: "isInterfaceObject".to_owned(), value: Value::Boolean(true) },
            );
        }
        arguments.push(Argument { name: "key".to_owned(), value: Value::Str(field_set.clone()) });
        let resolvable = match directive_bool_arg_value(kd, "resolvable") {
            Some(b) => b,
            None => true,
        };
        if !resolvable {
            arguments.push(
                Argument { name: "resolvable".to_owned(), value: Value::Boolean(false) },
            );
        }
        let d = Directive { name: "join__type".to_owned(), arguments };
        proof {
            assert(d.deep_view().arguments =~~= keyed_join_type_v(
                subgraph_name@,
                is_interface_object,
                key_directives.deep_view()[i as int],
            ).arguments);
            assert(d.deep_view() =~~= keyed_join_type_v(
                subgraph_name@,
                is_interface_object,
                key_directives.deep_view()[i as int],
            ));
        }
        let ghost prev = out.deep_view();
        out.push(d);
        proof {
            assert forall|k: int| 0 <= k < i + 1 implies (#[trigger] out.deep_view()[k])
                == keyed_join_type_v(
                subgraph_name@,
                is_interface_object,
                key_directives.deep_view()[k],
            ) by {
                if k < i {
                    assert(out.deep_view()[k] == prev[k]);
                } else {
                    assert(out.deep_view()[k] == d.deep_view());
                }
            }
        }
        i = i + 1;
    }
    proof {
        assert(out.deep_view() =~~= join_type_applied_v(
            subgraph_name@,
            key_directives.deep_view(),
            is_interface_object,
        ));
    }
    out
}

/// The `@join__implements(graph: ..., interface: ...)` application.
pub open spec fn join_type_implements_v(token: Seq<char>, intf_name: Seq<char>) -> DirectiveV {
    DirectiveV {
        name: "join__implements"@,
        arguments: seq![
            graph_argument_v(token),
            ArgumentV { name: "interface"@, value: ValueV::Str(intf_name) },
        ],
    }
}

/// Builds the `@join__implements` application for one interface relation.
pub fn join_type_implements(subgraph_name: &String, intf_name: &String) -> (r: Directive)
    ensures
        r.deep_view() == join_type_implements_v(subgraph_name@, intf_name@),
{
    let r = Directive {
        name: "join__implements".to_owned(),
        arguments: vec![
            graph_argument(subgraph_name),
            Argument { name: "interface".to_owned(), value: Value::Str(intf_name.clone()) },
        ],
    };
    proof {
        assert(r.deep_view().arguments =~~= join_type_implements_v(
            subgraph_name@,
            intf_name@,
        ).arguments);
        assert(r.deep_view() =~~= join_type_implements_v(subgraph_name@, intf_name@));
    }
    r
}

/// The `@join__field` application for one field in one subgraph.
pub open spec fn join_field_applied_v(
    token: Seq<char>,
    requires_fields: Option<Seq<char>>,
    provides_fields: Option<Seq<char>>,
    external: bool,
) -> DirectiveV {
    DirectiveV {
        name: "join__field"@,
        arguments: seq![graph_argument_v(token)] + (match requires_fields {
            Some(f) => seq![ArgumentV { name: "requires"@, value: ValueV::Str(f) }],
            None => Seq::empty(),
        }) + (match provides_fields {
            Some(f) => seq![ArgumentV { name: "provides"@, value: ValueV::Str(f) }],
            None => Seq::empty(),
        }) + (if external {
            seq![ArgumentV { name: "external"@, value: ValueV::Boolean(true) }]
        } else {
            Seq::empty()
        }),
    }
}

/// Builds the `@join__field` application for one field in one subgraph.
pub fn join_field_applied_directive(
    subgraph_name: &String,
    requires_fields: Option<&String>,
    provides_fields: Option<&String>,
    external: bool,
) -> (r: Directive)
    ensures
        r.deep_view() == join_field_applied_v(
            subgraph_name@,
            requires_fields.deep_view(),
            provides_fields.deep_view(),
            external,
        ),
{
    let mut arguments: Vec<Argument> = Vec::new();
    arguments.push(graph_argument(subgraph_name));
    match requires_fields {
        Some(f) => arguments.push(
            Argument { name: "requires".to_owned(), value: Value::Str((*f).clone()) },
        ),
        None => {},
    }
    match provides_fields {
        Some(f) => arguments.push(
            Argument { name: "provides".to_owned(), value: Value::Str((*f).clone()) },
        ),
        None => {},
    }
    if external {
        arguments.push(Argument { name: "external".to_owned(), value: Value::Boolean(true) });
    }
    let r = Directive { name: "join__field".to_owned(), arguments };
    proof {
        assert(r.deep_view().arguments =~~= join_field_applied_v(
            subgraph_name@,
            requires_fields.deep_view(),
            provides_fields.deep_view(),
            external,
        ).arguments);
        assert(r.deep_view() =~~= join_field_applied_v(
            subgraph_name@,
            requires_fields.deep_view(),
            provides_fields.deep_view(),
            external,
        ));
    }
    r
}

/// The `@join__enumValue(graph: ...)` application.
pub open spec fn join_enum_value_applied_v(token: Seq<char>) -> DirectiveV {
    DirectiveV { name: "join__enumValue"@, arguments: seq![graph_argument_v(token)] }
}

fn join_enum_value_applied(subgraph_name: &String) -> (r: Directive)
    ensures
        r.deep_view() == join_enum_value_applied_v(subgraph_name@),
{
    let r = Directive {
        name: "join__enumValue".to_owned(),
        arguments: vec![graph_argument(subgraph_name)],
    };
    proof {
        assert(r.deep_view().arguments =~~= join_enum_value_applied_v(subgraph_name@).arguments);
        assert(r.deep_view() =~~= join_enum_value_applied_v(subgraph_name@));
    }
    r
}

/// The `@join__unionMember(graph: ..., member: ...)` application.
pub open spec fn join_union_member_applied_v(token: Seq<char>, member: Seq<char>) -> DirectiveV {
    DirectiveV {
        name: "join__unionMember"@,
        arguments: seq![
            graph_argument_v(token),
            ArgumentV { name: "member"@, value: ValueV::Str(member) },
        ],
    }
}

fn join_union_member_applied(subgraph_name: &String, member: &String) -> (r: Directive)
    ensures
        r.deep_view() == join_union_member_applied_v(subgraph_name@, member@),
{
    let r = Directive {
        name: "join__unionMember".to_owned(),
        arguments: vec![
            graph_argument(subgraph_name),
            Argument { name: "member".to_owned(), value: Value::Str(member.clone()) },
        ],
    };
    proof {
        assert(r.deep_view().arguments =~~= join_union_member_applied_v(
            subgraph_name@,
            member@,
        ).arguments);
        assert(r.deep_view() =~~= join_union_member_applied_v(subgraph_name@, member@));
    }
    r
}

} // verus!

verus! {

// ---------------------------------------------------------------------------
// Stubs: what the first declaring subgraph contributes
// ---------------------------------------------------------------------------

/// An argument or input field copied into a stub: same shape, own directives
/// dropped.
pub open spec fn copy_arg_v(a: InputValueV) -> InputValueV {
    InputValueV { directives: Seq::empty(), ..a }
}

/// Arguments or input fields copied into a stub, in order.
pub open spec fn copy_args_v(args: Seq<InputValueV>) -> Seq<InputValueV> {
    args.map_values(|a: InputValueV| copy_arg_v(a))
}

/// Copies argument declarations or input fields, dropping their directives.
#[verifier::loop_isolation(false)]
pub fn copy_arguments(args: &Vec<crate::document::InputValue>) -> (r: Vec<
    crate::document::InputValue,
>)
    ensures
        r.deep_view() == copy_args_v(args.deep_view()),
{
    let mut out: Vec<crate::document::InputValue> = Vec::new();
    let mut i: usize = 0;
    while i < args.len()
        invariant
            0 <= i <= args.len(),
            out.len() == i,
            forall|k: int|
                0 <= k < i ==> (#[trigger] out.deep_view()[k]) == copy_arg_v(
                    args.deep_view()[k],
                ),
        decreases args.len() - i,
    {
        let a = &args[i];
        let copied = crate::document::InputValue {
            name: a.name.clone(),
            description: crate::document::clone_opt_string(&a.description),
            ty: crate::document::clone_ty(&a.ty),
            default_value: crate::document::clone_opt_value(&a.default_value),
            directives: Vec::new(),
        };
        proof {
            assert(copied.deep_view() =~~= copy_arg_v(args.deep_view()[i as int]));
        }
        let ghost prev = out.deep_view();
        out.push(copied);
        proof {
            assert forall|k: int| 0 <= k < i + 1 implies (#[trigger] out.deep_view()[k])
                == copy_arg_v(args.deep_view()[k]) by {
                if k < i {
                    assert(out.deep_view()[k] == prev[k]);
                }
            }
        }
        i = i + 1;
    }
    proof {
        assert(out.deep_view() =~~= copy_args_v(args.deep_view()));
    }
    out
}

/// The federation-internal field names never copied into the supergraph.
pub open spec fn skipped_field_name(name: Seq<char>) -> bool {
    name == "_service"@ || name == "_entities"@
}

/// A field copied into a stub: arguments kept (their directives dropped),
/// field directives dropped.
pub open spec fn copy_field_v(f: FieldDefinitionV) -> FieldDefinitionV {
    FieldDefinitionV {
        name: f.name,
        description: f.description,
        arguments: copy_args_v(f.arguments),
        ty: f.ty,
        directives: Seq::empty(),
    }
}

/// The fields copied into a stub, in order, the federation-internal query
/// fields skipped.
pub open spec fn copy_fields_v(fs: Seq<FieldDefinitionV>) -> Seq<FieldDefinitionV>
    decreases fs.len(),
{
    if fs.len() == 0 {
        Seq::empty()
    } else {
        let init = copy_fields_v(fs.drop_last());
        if skipped_field_name(fs.last().name) {
            init
        } else {
            init.push(copy_field_v(fs.last()))
        }
    }
}

/// Copies the fields of an object or interface declaration into a stub,
/// skipping `_service` and `_entities`.
#[verifier::loop_isolation(false)]
pub fn copy_fields(fields: &Vec<crate::document::FieldDefinition>) -> (r: Vec<
    crate::document::FieldDefinition,
>)
    ensures
        r.deep_view() == copy_fields_v(fields.deep_view()),
{
    let mut out: Vec<crate::document::FieldDefinition> = Vec::new();
    let mut i: usize = 0;
    proof {
        assert(out.deep_view() =~~= copy_fields_v(fields.deep_view().take(0)));
    }
    while i < fields.len()
        invariant
            0 <= i <= fields.len(),
            out.deep_view() == copy_fields_v(fields.deep_view().take(i as int)),
        decreases fields.len() - i,
    {
        let f = &fields[i];
        proof {
            assert(fields.deep_view().take(i + 1).drop_last() =~= fields.deep_view().take(
                i as int,
            ));
            assert(fields.deep_view().take(i + 1).last() == fields.deep_view()[i as int]);
        }
        if str_eq(f.name.as_str(), "_service") || str_eq(f.name.as_str(), "_entities") {
            proof {
                assert(skipped_field_name(fields.deep_view()[i as int].name));
            }
        } else {
            let copied = crate::document::FieldDefinition {
                name: f.name.clone(),
                description: crate::document::clone_opt_string(&f.description),
                arguments: copy_arguments(&f.arguments),
                ty: crate::document::clone_ty(&f.ty),
                directives: Vec::new(),
            };
            let ghost prev = out.deep_view();
            out.push(copied);
            proof {
                assert(copied.deep_view() =~~= copy_field_v(fields.deep_view()[i as int]));
                assert(out.deep_view() =~= prev.push(copy_field_v(fields.deep_view()[i as int])));
            }
        }
        i = i + 1;
    }
    proof {
        assert(fields.deep_view().take(fields.len() as int) =~= fields.deep_view());
    }
    out
}

/// The enum stub the first declaring subgraph creates: description kept,
/// values filled in by the merge itself.
pub open spec fn copy_enum_type_v(e: crate::document::EnumDefV) -> crate::document::TypeDefV {
    crate::document::TypeDefV::Enum(
        crate::document::EnumDefV {
            description: e.description,
            directives: Seq::empty(),
            values: Seq::empty(),
        },
    )
}

/// Builds the enum stub for a first-seen enum type.
pub fn copy_enum_type(enum_type: &crate::document::EnumDef) -> (r: crate::document::TypeDef)
    ensures
        r.deep_view() == copy_enum_type_v(enum_type.deep_view()),
{
    let r = crate::document::TypeDef::Enum(
        crate::document::EnumDef {
            description: crate::document::clone_opt_string(&enum_type.description),
            directives: Vec::new(),
            values: Vec::new(),
        },
    );
    proof {
        assert(r.deep_view()->Enum_0 =~~= copy_enum_type_v(enum_type.deep_view())->Enum_0);
    }
    r
}

/// The input-object stub: description and fields kept, field directives
/// dropped.
pub open spec fn copy_input_object_type_v(
    io: crate::document::InputObjectDefV,
) -> crate::document::TypeDefV {
    crate::document::TypeDefV::InputObject(
        crate::document::InputObjectDefV {
            description: io.description,
            directives: Seq::empty(),
            fields: copy_args_v(io.fields),
        },
    )
}

/// Builds the input-object stub for a first-seen input object type.
pub fn copy_input_object_type(input_object: &crate::document::InputObjectDef) -> (r:
    crate::document::TypeDef)
    ensures
        r.deep_view() == copy_input_object_type_v(input_object.deep_view()),
{
    let r = crate::document::TypeDef::InputObject(
        crate::document::InputObjectDef {
            description: crate::document::clone_opt_string(&input_object.description),
            directives: Vec::new(),
            fields: copy_arguments(&input_object.fields),
        },
    );
    proof {
        assert(r.deep_view()->InputObject_0 =~~= copy_input_object_type_v(
            input_object.deep_view(),
        )->InputObject_0);
    }
    r
}

/// The interface stub: description, fields and implemented interfaces kept.
pub open spec fn copy_interface_type_v(
    i: crate::document::InterfaceDefV,
) -> crate::document::TypeDefV {
    crate::document::TypeDefV::Interface(
        crate::document::InterfaceDefV {
            description: i.description,
            directives: Seq::empty(),
            implements_interfaces: i.implements_interfaces,
            fields: copy_fields_v(i.fields),
        },
    )
}

/// Builds the interface stub for a first-seen interface type.
pub fn copy_interface_type(interface: &crate::document::InterfaceDef) -> (r:
    crate::document::TypeDef)
    ensures
        r.deep_view() == copy_interface_type_v(interface.deep_view()),
{
    let r = crate::document::TypeDef::Interface(
        crate::document::InterfaceDef {
            description: crate::document::clone_opt_string(&interface.description),
            directives: Vec::new(),
            implements_interfaces: crate::document::clone_string_vec(
                &interface.implements_interfaces,
            ),
            fields: copy_fields(&interface.fields),
        },
    );
    proof {
        assert(r.deep_view()->Interface_0 =~~= copy_interface_type_v(
            interface.deep_view(),
        )->Interface_0);
    }
    r
}

/// The stub an object declaration creates: an interface shell when the
/// object is annotated `@interfaceObject`, an object shell otherwise.
pub open spec fn copy_object_type_stub_v(
    o: crate::document::ObjectDefV,
    is_interface_object: bool,
) -> crate::document::TypeDefV {
    if is_interface_object {
        crate::document::TypeDefV::Interface(
            crate::document::InterfaceDefV {
                description: o.description,
                directives: Seq::empty(),
                implements_interfaces: o.implements_interfaces,
                fields: copy_fields_v(o.fields),
            },
        )
    } else {
        crate::document::TypeDefV::Object(
            crate::document::ObjectDefV {
                description: o.description,
                directives: Seq::empty(),
                implements_interfaces: o.implements_interfaces,
                fields: copy_fields_v(o.fields),
            },
        )
    }
}

/// Builds the stub for a first-seen object type.
pub fn copy_object_type_stub(
    object: &crate::document::ObjectDef,
    is_interface_object: bool,
) -> (r: crate::document::TypeDef)
    ensures
        r.deep_view() == copy_object_type_stub_v(object.deep_view(), is_interface_object),
{
    if is_interface_object {
        let r = crate::document::TypeDef::Interface(
            crate::document::InterfaceDef {
                description: crate::document::clone_opt_string(&object.description),
                directives: Vec::new(),
                implements_interfaces: crate::document::clone_string_vec(
                    &object.implements_interfaces,
                ),
                fields: copy_fields(&object.fields),
            },
        );
        proof {
            assert(r.deep_view()->Interface_0 =~~= copy_object_type_stub_v(
                object.deep_view(),
                is_interface_object,
            )->Interface_0);
        }
        r
    } else {
        let r = crate::document::TypeDef::Object(
            crate::document::ObjectDef {
                description: crate::document::clone_opt_string(&object.description),
                directives: Vec::new(),
                implements_interfaces: crate::document::clone_string_vec(
                    &object.implements_interfaces,
                ),
                fields: copy_fields(&object.fields),
            },
        );
        proof {
            assert(r.deep_view()->Object_0 =~~= copy_object_type_stub_v(
                object.deep_view(),
                is_interface_object,
            )->Object_0);
        }
        r
    }
}

/// The union stub: description kept, members filled in by the merge itself.
pub open spec fn copy_union_type_v(description: Option<Seq<char>>) -> crate::document::TypeDefV {
    crate::document::TypeDefV::Union(
        crate::document::UnionDefV {
            description: description,
            directives: Seq::empty(),
            members: Seq::empty(),
        },
    )
}

/// Builds the union stub for a first-seen union type.
pub fn copy_union_type(description: &Option<String>) -> (r: crate::document::TypeDef)
    ensures
        r.deep_view() == copy_union_type_v(description.deep_view()),
{
    let r = crate::document::TypeDef::Union(
        crate::document::UnionDef {
            description: crate::document::clone_opt_string(description),
            directives: Vec::new(),
            members: Vec::new(),
        },
    );
    proof {
        assert(r.deep_view()->Union_0 =~~= copy_union_type_v(description.deep_view())->Union_0);
    }
    r
}

} // verus!

verus! {

// ---------------------------------------------------------------------------
// The merger and its diagnostics
// ---------------------------------------------------------------------------

/// The hint recorded when two subgraphs give different descriptions for the
/// same element.
pub open spec fn conflict_hint() -> Seq<char> {
    "conflicting descriptions"@
}

/// How a description merges: an absent incoming description changes
/// nothing; a first description is adopted; a differing second one is kept
/// out and noted as a hint.
pub open spec fn merge_desc_v(
    merged: Option<Seq<char>>,
    new: Option<Seq<char>>,
    hints: Seq<Seq<char>>,
) -> (Option<Seq<char>>, Seq<Seq<char>>) {
    match new {
        None => (merged, hints),
        Some(b) => match merged {
            None => (Some(b), hints),
            Some(a) => if a == b {
                (merged, hints)
            } else {
                (merged, hints.push(conflict_hint()))
            },
        },
    }
}

/// Composition state: the fatal errors and the non-fatal hints gathered
/// during one composition call.
pub struct Merger {
    pub errors: Vec<String>,
    pub composition_hints: Vec<String>,
}

impl Merger {
    /// Returns a merger with no diagnostics yet.
    pub fn new() -> (r: Merger)
        ensures
            r.errors.deep_view() == Seq::<Seq<char>>::empty(),
            r.composition_hints.deep_view() == Seq::<Seq<char>>::empty(),
    {
        let r = Merger { errors: Vec::new(), composition_hints: Vec::new() };
        proof {
            assert(r.errors.deep_view() =~= Seq::<Seq<char>>::empty());
            assert(r.composition_hints.deep_view() =~= Seq::<Seq<char>>::empty());
        }
        r
    }

    /// Merges an incoming description into the supergraph's, recording a
    /// hint when the two disagree.
    pub fn merge_descriptions(&mut self, merged: &mut Option<String>, new: &Option<String>)
        ensures
            ({
                let (m, h) = merge_desc_v(
                    old(merged).deep_view(),
                    new.deep_view(),
                    old(self).composition_hints.deep_view(),
                );
                final(merged).deep_view() == m && final(self).composition_hints.deep_view() == h
            }),
            final(self).errors == old(self).errors,
    {
        match new {
            None => {},
            Some(b) => {
                if merged.is_none() {
                    *merged = Some(b.clone());
                } else {
                    let differs = !str_eq(merged.as_ref().unwrap().as_str(), b.as_str());
                    if differs {
                        let ghost before = self.composition_hints.deep_view();
                        self.composition_hints.push("conflicting descriptions".to_owned());
                        proof {
                            assert(self.composition_hints.deep_view() =~= before.push(
                                conflict_hint(),
                            ));
                        }
                    }
                }
            },
        }
    }
}

/// How one subgraph's schema definition folds into the supergraph's:
/// descriptions merge, and each root operation binding the subgraph declares
/// replaces the supergraph's.
pub open spec fn merge_schema_v(
    doc: crate::document::DocumentV,
    hints: Seq<Seq<char>>,
    sub: crate::document::DocumentV,
) -> (crate::document::DocumentV, Seq<Seq<char>>) {
    let (d, h) = merge_desc_v(doc.description, sub.description, hints);
    (
        crate::document::DocumentV {
            description: d,
            query_root: if sub.query_root is Some {
                sub.query_root
            } else {
                doc.query_root
            },
            mutation_root: if sub.mutation_root is Some {
                sub.mutation_root
            } else {
                doc.mutation_root
            },
            subscription_root: if sub.subscription_root is Some {
                sub.subscription_root
            } else {
                doc.subscription_root
            },
            ..doc
        },
        h,
    )
}

impl Merger {
    /// Folds a subgraph's schema definition into the supergraph's.
    pub fn merge_schema(
        &mut self,
        supergraph_schema: &mut crate::document::Document,
        subgraph: &crate::document::Subgraph,
    )
        ensures
            ({
                let (d, h) = merge_schema_v(
                    old(supergraph_schema).deep_view(),
                    old(self).composition_hints.deep_view(),
                    subgraph.deep_view().schema,
                );
                final(supergraph_schema).deep_view() == d
                    && final(self).composition_hints.deep_view() == h
            }),
            final(self).errors == old(self).errors,
    {
        let sub = &subgraph.schema;
        self.merge_descriptions(&mut supergraph_schema.description, &sub.description);
        if sub.query_root.is_some() {
            supergraph_schema.query_root = crate::document::clone_opt_string(&sub.query_root);
        }
        if sub.mutation_root.is_some() {
            supergraph_schema.mutation_root = crate::document::clone_opt_string(
                &sub.mutation_root,
            );
        }
        if sub.subscription_root.is_some() {
            supergraph_schema.subscription_root = crate::document::clone_opt_string(
                &sub.subscription_root,
            );
        }
        proof {
            assert(supergraph_schema.deep_view() =~~= merge_schema_v(
                old(supergraph_schema).deep_view(),
                old(self).composition_hints.deep_view(),
                subgraph.deep_view().schema,
            ).0);
        }
    }
}

// ---------------------------------------------------------------------------
// Enum merging
// ---------------------------------------------------------------------------

/// Finds the index of the enum value with the given name.
pub fn find_enum_value_entry(
    values: &Vec<crate::document::EnumValueDefinition>,
    name: &str,
) -> (r: Option<usize>)
    ensures
        (match r {
            Some(i) => 0 <= i < values.len() && crate::bootstrap::find_enum_value(
                values.deep_view(),
                name@,
            ) == i as int,
            None => crate::bootstrap::find_enum_value(values.deep_view(), name@) == -1,
        }),
{
    let mut i: usize = 0;
    while i < values.len()
        invariant
            0 <= i <= values.len(),
            forall|k: int| 0 <= k < i ==> (#[trigger] values.deep_view()[k].value) != name@,
        decreases values.len() - i,
    {
        if str_eq(values[i].value.as_str(), name) {
            proof {
                crate::bootstrap::lemma_find_enum_value(values.deep_view(), name@);
                assert(values.deep_view()[i as int].value == name@);
            }
            return Some(i);
        }
        proof {
            assert(values.deep_view()[i as int].value != name@);
        }
        i = i + 1;
    }
    proof {
        crate::bootstrap::lemma_find_enum_value(values.deep_view(), name@);
    }
    None
}

/// Appends copies of the given directives.
#[verifier::loop_isolation(false)]
pub fn append_directives(dst: &mut Vec<Directive>, src: &Vec<Directive>)
    ensures
        final(dst).deep_view() == old(dst).deep_view() + src.deep_view(),
{
    let mut i: usize = 0;
    proof {
        assert(dst.deep_view() =~= old(dst).deep_view() + src.deep_view().take(0));
    }
    while i < src.len()
        invariant
            0 <= i <= src.len(),
            dst.deep_view() == old(dst).deep_view() + src.deep_view().take(i as int),
        decreases src.len() - i,
    {
        let copied = crate::document::clone_directive(&src[i]);
        let ghost prev = dst.deep_view();
        dst.push(copied);
        proof {
            assert(dst.deep_view() =~= prev.push(src.deep_view()[i as int]));
            assert(dst.deep_view() =~= old(dst).deep_view() + src.deep_view().take(i + 1));
        }
        i = i + 1;
    }
    proof {
        assert(src.deep_view().take(src.len() as int) =~= src.deep_view());
    }
}

/// The shell a first-seen enum value starts from.
pub open spec fn enum_value_stub_v(
    v: crate::document::EnumValueDefinitionV,
) -> crate::document::EnumValueDefinitionV {
    crate::document::EnumValueDefinitionV {
        value: v.value,
        description: None,
        directives: Seq::empty(),
    }
}

/// How one subgraph's enum values fold in: union by value name, each
/// declared value picking up one `@join__enumValue` for this subgraph, value
/// descriptions merged.
pub open spec fn merge_enum_values_v(
    values: Seq<crate::document::EnumValueDefinitionV>,
    hints: Seq<Seq<char>>,
    token: Seq<char>,
    svals: Seq<crate::document::EnumValueDefinitionV>,
) -> (Seq<crate::document::EnumValueDefinitionV>, Seq<Seq<char>>)
    decreases svals.len(),
{
    if svals.len() == 0 {
        (values, hints)
    } else {
        let sv = svals[0];
        let j0 = crate::bootstrap::find_enum_value(values, sv.value);
        let values1 = if j0 == -1 {
            values.push(enum_value_stub_v(sv))
        } else {
            values
        };
        let j = if j0 == -1 {
            values.len() as int
        } else {
            j0
        };
        let ev = values1[j];
        let (d, hints1) = merge_desc_v(ev.description, sv.description, hints);
        let ev1 = crate::document::EnumValueDefinitionV {
            value: ev.value,
            description: d,
            directives: ev.directives.push(join_enum_value_applied_v(token)),
        };
        merge_enum_values_v(values1.update(j, ev1), hints1, token, svals.drop_first())
    }
}

/// How one subgraph's enum type folds into the supergraph: a stub is
/// created on first sight, the type gets a graph-only `@join__type`, type
/// and value descriptions merge, and the values union by name.  A name
/// already taken by another kind is left untouched.
pub open spec fn merge_enum_type_v(
    types: Seq<TypeEntryV>,
    hints: Seq<Seq<char>>,
    token: Seq<char>,
    name: Seq<char>,
    e: crate::document::EnumDefV,
) -> (Seq<TypeEntryV>, Seq<Seq<char>>) {
    let i0 = find_type(types, name);
    let types1 = if i0 == -1 {
        types.push(TypeEntryV { name: name, built_in: false, def: copy_enum_type_v(e) })
    } else {
        types
    };
    let idx = if i0 == -1 {
        types.len() as int
    } else {
        i0
    };
    match types1[idx].def {
        crate::document::TypeDefV::Enum(sup) => {
            let dirs = sup.directives + join_type_applied_v(token, Seq::empty(), false);
            let (d, hints1) = merge_desc_v(sup.description, e.description, hints);
            let (vals, hints2) = merge_enum_values_v(sup.values, hints1, token, e.values);
            (
                types1.update(
                    idx,
                    TypeEntryV {
                        name: types1[idx].name,
                        built_in: types1[idx].built_in,
                        def: crate::document::TypeDefV::Enum(
                            crate::document::EnumDefV {
                                description: d,
                                directives: dirs,
                                values: vals,
                            },
                        ),
                    },
                ),
                hints2,
            )
        },
        _ => (types1, hints),
    }
}

impl Merger {
    /// Folds one subgraph's enum type into the supergraph type map.
    #[verifier::loop_isolation(false)]
    pub fn merge_enum_type(
        &mut self,
        types: &mut Vec<TypeEntry>,
        subgraph_name: &String,
        enum_name: &String,
        enum_type: &crate::document::EnumDef,
    )
        ensures
            ({
                let (t, h) = merge_enum_type_v(
                    old(types).deep_view(),
                    old(self).composition_hints.deep_view(),
                    subgraph_name@,
                    enum_name@,
                    enum_type.deep_view(),
                );
                final(types).deep_view() == t && final(self).composition_hints.deep_view() == h
            }),
            final(self).errors == old(self).errors,
    {
        let ghost types0 = types.deep_view();
        let ghost hints0 = self.composition_hints.deep_view();
        let idx: usize = match find_type_entry(types, enum_name.as_str()) {
            Some(i) => i,
            None => {
                let stub = TypeEntry {
                    name: enum_name.clone(),
                    built_in: false,
                    def: copy_enum_type(enum_type),
                };
                types.push(stub);
                types.len() - 1
            },
        };
        let ghost types1 = types.deep_view();
        proof {
            assert(types1 =~~= ({
                let i0 = find_type(types0, enum_name@);
                if i0 == -1 {
                    types0.push(
                        TypeEntryV {
                            name: enum_name@,
                            built_in: false,
                            def: copy_enum_type_v(enum_type.deep_view()),
                        },
                    )
                } else {
                    types0
                }
            }));
        }
        let entry = types.remove(idx);
        match entry.def {
            crate::document::TypeDef::Enum(sup) => {
                let crate::document::EnumDef {
                    description: mut sup_desc,
                    directives: mut sup_dirs,
                    values: mut sup_values,
                } = sup;
                let ghost sup0_desc = sup_desc.deep_view();
                let ghost sup0_dirs = sup_dirs.deep_view();
                let ghost sup0_values = sup_values.deep_view();
                let empty_keys: Vec<&Directive> = Vec::new();
                let jt = join_type_applied_directive(subgraph_name, &empty_keys, false);
                proof {
                    assert(empty_keys.deep_view() =~= Seq::<DirectiveV>::empty());
                }
                append_directives(&mut sup_dirs, &jt);
                self.merge_descriptions(&mut sup_desc, &enum_type.description);
                let ghost hints1 = self.composition_hints.deep_view();
                let ghost evals = enum_type.deep_view().values;
                let mut vi: usize = 0;
                proof {
                    assert(evals.skip(0) =~= evals);
                }
                while vi < enum_type.values.len()
                    invariant
                        0 <= vi <= enum_type.values.len(),
                        self.errors == old(self).errors,
                        merge_enum_values_v(sup0_values, hints1, subgraph_name@, evals)
                            == merge_enum_values_v(
                            sup_values.deep_view(),
                            self.composition_hints.deep_view(),
                            subgraph_name@,
                            evals.skip(vi as int),
                        ),
                    decreases enum_type.values.len() - vi,
                {
                    proof {
                        assert(evals.skip(vi as int)[0] == evals[vi as int]);
                        assert(evals.skip(vi as int).drop_first() =~= evals.skip(vi + 1));
                    }
                    let sv = &enum_type.values[vi];
                    proof {
                        assert(sv.deep_view() == evals[vi as int]);
                    }
                    let ghost vals_before = sup_values.deep_view();
                    let ghost hints_before = self.composition_hints.deep_view();
                    let j: usize = match find_enum_value_entry(&sup_values, sv.value.as_str()) {
                        Some(j) => j,
                        None => {
                            let stub = crate::document::EnumValueDefinition {
                                value: sv.value.clone(),
                                description: None,
                                directives: Vec::new(),
                            };
                            sup_values.push(stub);
                            sup_values.len() - 1
                        },
                    };
                    let ghost vals1 = sup_values.deep_view();
                    proof {
                        assert(vals1 =~~= ({
                            let j0 = crate::bootstrap::find_enum_value(
                                vals_before,
                                evals[vi as int].value,
                            );
                            if j0 == -1 {
                                vals_before.push(enum_value_stub_v(evals[vi as int]))
                            } else {
                                vals_before
                            }
                        }));
                    }
                    let mut ev = sup_values.remove(j);
                    proof {
                        assert(ev.deep_view() == vals1[j as int]);
                    }
                    let ghost ev_before = ev.deep_view();
                    self.merge_descriptions(&mut ev.description, &sv.description);
                    let jd = join_enum_value_applied(subgraph_name);
                    let ghost dirs_before = ev.directives.deep_view();
                    ev.directives.push(jd);
                    proof {
                        assert(ev.directives.deep_view() =~~= dirs_before.push(
                            join_enum_value_applied_v(subgraph_name@),
                        ));
                    }
                    let ghost ev1 = ev.deep_view();
                    sup_values.insert(j, ev);
                    proof {
                        assert(sup_values.deep_view() =~~= vals1.update(j as int, ev1));
                        let sv_v = evals[vi as int];
                        let spec_ev = vals1[j as int];
                        let (spec_d, spec_h) = merge_desc_v(
                            spec_ev.description,
                            sv_v.description,
                            hints_before,
                        );
                        assert(ev1 =~~= (crate::document::EnumValueDefinitionV {
                            value: spec_ev.value,
                            description: spec_d,
                            directives: spec_ev.directives.push(
                                join_enum_value_applied_v(subgraph_name@),
                            ),
                        }));
                        assert(self.composition_hints.deep_view() == spec_h);
                        assert(merge_enum_values_v(
                            vals_before,
                            hints_before,
                            subgraph_name@,
                            evals.skip(vi as int),
                        ) == merge_enum_values_v(
                            sup_values.deep_view(),
                            self.composition_hints.deep_view(),
                            subgraph_name@,
                            evals.skip(vi + 1),
                        ));
                    }
                    vi = vi + 1;
                }
                proof {
                    assert(evals.skip(enum_type.values.len() as int) =~= Seq::<
                        crate::document::EnumValueDefinitionV,
                    >::empty());
                }
                let new_entry = TypeEntry {
                    name: entry.name,
                    built_in: entry.built_in,
                    def: crate::document::TypeDef::Enum(
                        crate::document::EnumDef {
                            description: sup_desc,
                            directives: sup_dirs,
                            values: sup_values,
                        },
                    ),
                };
                let ghost new_entry_v = new_entry.deep_view();
                types.insert(idx, new_entry);
                proof {
                    assert(types.deep_view() =~~= types1.update(idx as int, new_entry_v));
                    assert(types.deep_view() =~~= merge_enum_type_v(
                        types0,
                        hints0,
                        subgraph_name@,
                        enum_name@,
                        enum_type.deep_view(),
                    ).0);
                }
            },
            def => {
                let back = TypeEntry { name: entry.name, built_in: entry.built_in, def };
                let ghost back_v = back.deep_view();
                types.insert(idx, back);
                proof {
                    assert(types.deep_view() =~~= types1);
                    assert(types.deep_view() =~~= merge_enum_type_v(
                        types0,
                        hints0,
                        subgraph_name@,
                        enum_name@,
                        enum_type.deep_view(),
                    ).0);
                }
            },
        }
    }
}

} // verus!

verus! {

// ---------------------------------------------------------------------------
// Input object merging
// ---------------------------------------------------------------------------

/// The index of the first input field with the given name, or `-1`.
pub open spec fn find_input_field(fields: Seq<InputValueV>, name: Seq<char>) -> int
    decreases fields.len(),
{
    if fields.len() == 0 {
        -1
    } else if fields[0].name == name {
        0
    } else {
        let r = find_input_field(fields.drop_first(), name);
        if r == -1 {
            -1
        } else {
            r + 1
        }
    }
}

/// What `find_input_field` returns: the first index carrying the name, or
/// `-1`.
pub broadcast proof fn lemma_find_input_field(fields: Seq<InputValueV>, name: Seq<char>)
    ensures
        -1 <= #[trigger] find_input_field(fields, name) < fields.len(),
        find_input_field(fields, name) == -1 <==> (forall|k: int|
            0 <= k < fields.len() ==> (#[trigger] fields[k].name) != name),
        find_input_field(fields, name) >= 0 ==> fields[find_input_field(fields, name)].name == name,
        find_input_field(fields, name) >= 0 ==> (forall|k: int|
            0 <= k < find_input_field(fields, name) ==> (#[trigger] fields[k].name) != name),
    decreases fields.len(),
{
    if fields.len() > 0 {
        lemma_find_input_field(fields.drop_first(), name);
        assert(forall|k: int|
            1 <= k < fields.len() ==> fields[k] == #[trigger] fields.drop_first()[k - 1]);
        if fields[0].name != name {
            let r = find_input_field(fields.drop_first(), name);
            if r == -1 {
                assert forall|k: int| 0 <= k < fields.len() implies (#[trigger] fields[k].name)
                    != name by {
                    if k >= 1 {
                        assert(fields.drop_first()[k - 1].name != name);
                    }
                }
            } else {
                assert(fields[r + 1].name == name);
                assert forall|k: int| 0 <= k < r + 1 implies (#[trigger] fields[k].name)
                    != name by {
                    if k >= 1 {
                        assert(fields.drop_first()[k - 1].name != name);
                    }
                }
            }
        }
    }
}

/// Finds the index of the input field with the given name.
pub fn find_input_field_entry(
    fields: &Vec<crate::document::InputValue>,
    name: &str,
) -> (r: Option<usize>)
    ensures
        (match r {
            Some(i) => 0 <= i < fields.len() && find_input_field(fields.deep_view(), name@)
                == i as int,
            None => find_input_field(fields.deep_view(), name@) == -1,
        }),
{
    let mut i: usize = 0;
    while i < fields.len()
        invariant
            0 <= i <= fields.len(),
            forall|k: int| 0 <= k < i ==> (#[trigger] fields.deep_view()[k].name) != name@,
        decreases fields.len() - i,
    {
        if str_eq(fields[i].name.as_str(), name) {
            proof {
                lemma_find_input_field(fields.deep_view(), name@);
                assert(fields.deep_view()[i as int].name == name@);
            }
            return Some(i);
        }
        proof {
            assert(fields.deep_view()[i as int].name != name@);
        }
        i = i + 1;
    }
    proof {
        lemma_find_input_field(fields.deep_view(), name@);
    }
    None
}

/// How one subgraph's input fields fold in: the field-name set unions in
/// declaration order.  A field the supergraph does not know yet is added
/// with the declaring subgraph's shape (its own directives dropped, as the
/// stub drops them); a known field keeps its first-seen shape, description,
/// type and default alike.
pub open spec fn merge_input_fields_v(
    fields: Seq<InputValueV>,
    sfs: Seq<InputValueV>,
) -> Seq<InputValueV>
    decreases sfs.len(),
{
    if sfs.len() == 0 {
        fields
    } else {
        let f = sfs[0];
        let fields1 = if find_input_field(fields, f.name) == -1 {
            fields.push(copy_arg_v(f))
        } else {
            fields
        };
        merge_input_fields_v(fields1, sfs.drop_first())
    }
}

/// How one subgraph's input object folds in: a stub is created on first
/// sight, the type gets a graph-only `@join__type`, and the field-name set
/// unions across the declaring subgraphs.  Per-field description, type and
/// default merging is additive-union-of-names only, and a field set
/// mismatch between subgraphs stays unreported, a known latent gap.  A name
/// already taken by another kind is left untouched.
pub open spec fn merge_input_object_type_v(
    types: Seq<TypeEntryV>,
    hints: Seq<Seq<char>>,
    token: Seq<char>,
    name: Seq<char>,
    io: crate::document::InputObjectDefV,
) -> (Seq<TypeEntryV>, Seq<Seq<char>>) {
    let i0 = find_type(types, name);
    let types1 = if i0 == -1 {
        types.push(TypeEntryV { name: name, built_in: false, def: copy_input_object_type_v(io) })
    } else {
        types
    };
    let idx = if i0 == -1 {
        types.len() as int
    } else {
        i0
    };
    match types1[idx].def {
        crate::document::TypeDefV::InputObject(sup) => {
            let dirs = sup.directives + join_type_applied_v(token, Seq::empty(), false);
            let fields = merge_input_fields_v(sup.fields, io.fields);
            (
                types1.update(
                    idx,
                    TypeEntryV {
                        name: types1[idx].name,
                        built_in: types1[idx].built_in,
                        def: crate::document::TypeDefV::InputObject(
                            crate::document::InputObjectDefV {
                                description: sup.description,
                                directives: dirs,
                                fields: fields,
                            },
                        ),
                    },
                ),
                hints,
            )
        },
        _ => (types1, hints),
    }
}

impl Merger {
    /// Folds one subgraph's input object type into the supergraph type map.
    #[verifier::loop_isolation(false)]
    pub fn merge_input_object_type(
        &mut self,
        types: &mut Vec<TypeEntry>,
        subgraph_name: &String,
        input_object_name: &String,
        input_object: &crate::document::InputObjectDef,
    )
        ensures
            ({
                let (t, h) = merge_input_object_type_v(
                    old(types).deep_view(),
                    old(self).composition_hints.deep_view(),
                    subgraph_name@,
                    input_object_name@,
                    input_object.deep_view(),
                );
                final(types).deep_view() == t && final(self).composition_hints.deep_view() == h
            }),
            final(self).errors == old(self).errors,
    {
        let ghost types0 = types.deep_view();
        let ghost hints0 = self.composition_hints.deep_view();
        let idx: usize = match find_type_entry(types, input_object_name.as_str()) {
            Some(i) => i,
            None => {
                let stub = TypeEntry {
                    name: input_object_name.clone(),
                    built_in: false,
                    def: copy_input_object_type(input_object),
                };
                types.push(stub);
                types.len() - 1
            },
        };
        let ghost types1 = types.deep_view();
        proof {
            assert(types1 =~~= ({
                let i0 = find_type(types0, input_object_name@);
                if i0 == -1 {
                    types0.push(
                        TypeEntryV {
                            name: input_object_name@,
                            built_in: false,
                            def: copy_input_object_type_v(input_object.deep_view()),
                        },
                    )
                } else {
                    types0
                }
            }));
        }
        let entry = types.remove(idx);
        match entry.def {
            crate::document::TypeDef::InputObject(sup) => {
                let crate::document::InputObjectDef {
                    description: sup_desc,
                    directives: mut sup_dirs,
                    fields: mut sup_fields,
                } = sup;
                let empty_keys: Vec<&Directive> = Vec::new();
                let jt = join_type_applied_directive(subgraph_name, &empty_keys, false);
                proof {
                    assert(empty_keys.deep_view() =~= Seq::<DirectiveV>::empty());
                }
                append_directives(&mut sup_dirs, &jt);
                let ghost fields0 = sup_fields.deep_view();
                let ghost sfs = input_object.deep_view().fields;
                let mut fi: usize = 0;
                proof {
                    assert(sfs.skip(0) =~= sfs);
                }
                while fi < input_object.fields.len()
                    invariant
                        0 <= fi <= input_object.fields.len(),
                        merge_input_fields_v(fields0, sfs) == merge_input_fields_v(
                            sup_fields.deep_view(),
                            sfs.skip(fi as int),
                        ),
                    decreases input_object.fields.len() - fi,
                {
                    proof {
                        assert(sfs.skip(fi as int)[0] == sfs[fi as int]);
                        assert(sfs.skip(fi as int).drop_first() =~= sfs.skip(fi + 1));
                    }
                    let f = &input_object.fields[fi];
                    proof {
                        assert(f.deep_view() == sfs[fi as int]);
                    }
                    let ghost fields_before = sup_fields.deep_view();
                    match find_input_field_entry(&sup_fields, f.name.as_str()) {
                        Some(_) => {},
                        None => {
                            let copied = crate::document::InputValue {
                                name: f.name.clone(),
                                description: crate::document::clone_opt_string(&f.description),
                                ty: crate::document::clone_ty(&f.ty),
                                default_value: crate::document::clone_opt_value(&f.default_value),
                                directives: Vec::new(),
                            };
                            proof {
                                assert(copied.deep_view() =~~= copy_arg_v(sfs[fi as int]));
                            }
                            sup_fields.push(copied);
                            proof {
                                assert(sup_fields.deep_view() =~~= fields_before.push(
                                    copy_arg_v(sfs[fi as int]),
                                ));
                            }
                        },
                    }
                    proof {
                        assert(merge_input_fields_v(fields_before, sfs.skip(fi as int))
                            == merge_input_fields_v(sup_fields.deep_view(), sfs.skip(fi + 1)));
                    }
                    fi = fi + 1;
                }
                proof {
                    assert(sfs.skip(input_object.fields.len() as int) =~= Seq::<
                        InputValueV,
                    >::empty());
                }
                let new_entry = TypeEntry {
                    name: entry.name,
                    built_in: entry.built_in,
                    def: crate::document::TypeDef::InputObject(
                        crate::document::InputObjectDef {
                            description: sup_desc,
                            directives: sup_dirs,
                            fields: sup_fields,
                        },
                    ),
                };
                let ghost new_entry_v = new_entry.deep_view();
                types.insert(idx, new_entry);
                proof {
                    assert(types.deep_view() =~~= types1.update(idx as int, new_entry_v));
                    assert(types.deep_view() =~~= merge_input_object_type_v(
                        types0,
                        hints0,
                        subgraph_name@,
                        input_object_name@,
                        input_object.deep_view(),
                    ).0);
                }
            },
            def => {
                let back = TypeEntry { name: entry.name, built_in: entry.built_in, def };
                types.insert(idx, back);
                proof {
                    assert(types.deep_view() =~~= types1);
                    assert(types.deep_view() =~~= merge_input_object_type_v(
                        types0,
                        hints0,
                        subgraph_name@,
                        input_object_name@,
                        input_object.deep_view(),
                    ).0);
                }
            },
        }
    }
}

// ---------------------------------------------------------------------------
// Union merging
// ---------------------------------------------------------------------------

/// How one subgraph's union members fold in: the member set unions in
/// declaration order, and every declared member adds one
/// `@join__unionMember` for this subgraph.
pub open spec fn merge_union_members_v(
    members: Seq<Seq<char>>,
    dirs: Seq<DirectiveV>,
    token: Seq<char>,
    ms: Seq<Seq<char>>,
) -> (Seq<Seq<char>>, Seq<DirectiveV>)
    decreases ms.len(),
{
    if ms.len() == 0 {
        (members, dirs)
    } else {
        let m = ms[0];
        let members1 = if members.contains(m) {
            members
        } else {
            members.push(m)
        };
        let dirs1 = dirs.push(join_union_member_applied_v(token, m));
        merge_union_members_v(members1, dirs1, token, ms.drop_first())
    }
}

/// How one subgraph's union type folds in: a stub on first sight, a
/// graph-only `@join__type`, then the member union.  A name already taken by
/// another kind is left untouched, and hints never change here.
pub open spec fn merge_union_type_v(
    types: Seq<TypeEntryV>,
    hints: Seq<Seq<char>>,
    token: Seq<char>,
    name: Seq<char>,
    u: crate::document::UnionDefV,
) -> (Seq<TypeEntryV>, Seq<Seq<char>>) {
    let i0 = find_type(types, name);
    let types1 = if i0 == -1 {
        types.push(TypeEntryV { name: name, built_in: false, def: copy_union_type_v(u.description) })
    } else {
        types
    };
    let idx = if i0 == -1 {
        types.len() as int
    } else {
        i0
    };
    match types1[idx].def {
        crate::document::TypeDefV::Union(sup) => {
            let dirs = sup.directives + join_type_applied_v(token, Seq::empty(), false);
            let (mems, dirs1) = merge_union_members_v(sup.members, dirs, token, u.members);
            (
                types1.update(
                    idx,
                    TypeEntryV {
                        name: types1[idx].name,
                        built_in: types1[idx].built_in,
                        def: crate::document::TypeDefV::Union(
                            crate::document::UnionDefV {
                                description: sup.description,
                                directives: dirs1,
                                members: mems,
                            },
                        ),
                    },
                ),
                hints,
            )
        },
        _ => (types1, hints),
    }
}

impl Merger {
    /// Folds one subgraph's union type into the supergraph type map.
    #[verifier::loop_isolation(false)]
    pub fn merge_union_type(
        &mut self,
        types: &mut Vec<TypeEntry>,
        subgraph_name: &String,
        union_name: &String,
        union_type: &crate::document::UnionDef,
    )
        ensures
            ({
                let (t, h) = merge_union_type_v(
                    old(types).deep_view(),
                    old(self).composition_hints.deep_view(),
                    subgraph_name@,
                    union_name@,
                    union_type.deep_view(),
                );
                final(types).deep_view() == t && final(self).composition_hints.deep_view() == h
            }),
            final(self).errors == old(self).errors,
    {
        let ghost types0 = types.deep_view();
        let ghost hints0 = self.composition_hints.deep_view();
        let idx: usize = match find_type_entry(types, union_name.as_str()) {
            Some(i) => i,
            None => {
                let stub = TypeEntry {
                    name: union_name.clone(),
                    built_in: false,
                    def: copy_union_type(&union_type.description),
                };
                types.push(stub);
                types.len() - 1
            },
        };
        let ghost types1 = types.deep_view();
        proof {
            assert(types1 =~~= ({
                let i0 = find_type(types0, union_name@);
                if i0 == -1 {
                    types0.push(
                        TypeEntryV {
                            name: union_name@,
                            built_in: false,
                            def: copy_union_type_v(union_type.deep_view().description),
                        },
                    )
                } else {
                    types0
                }
            }));
        }
        let entry = types.remove(idx);
        match entry.def {
            crate::document::TypeDef::Union(sup) => {
                let crate::document::UnionDef {
                    description: sup_desc,
                    directives: mut sup_dirs,
                    members: mut sup_members,
                } = sup;
                let empty_keys: Vec<&Directive> = Vec::new();
                let jt = join_type_applied_directive(subgraph_name, &empty_keys, false);
                proof {
                    assert(empty_keys.deep_view() =~= Seq::<DirectiveV>::empty());
                }
                append_directives(&mut sup_dirs, &jt);
                let ghost mems0 = sup_members.deep_view();
                let ghost dirs0 = sup_dirs.deep_view();
                let ghost ms = union_type.deep_view().members;
                let mut mi: usize = 0;
                proof {
                    assert(ms.skip(0) =~= ms);
                }
                while mi < union_type.members.len()
                    invariant
                        0 <= mi <= union_type.members.len(),
                        merge_union_members_v(mems0, dirs0, subgraph_name@, ms)
                            == merge_union_members_v(
                            sup_members.deep_view(),
                            sup_dirs.deep_view(),
                            subgraph_name@,
                            ms.skip(mi as int),
                        ),
                    decreases union_type.members.len() - mi,
                {
                    proof {
                        assert(ms.skip(mi as int)[0] == ms[mi as int]);
                        assert(ms.skip(mi as int).drop_first() =~= ms.skip(mi + 1));
                    }
                    let m = &union_type.members[mi];
                    proof {
                        assert(m.deep_view() == ms[mi as int]);
                    }
                    let ghost mems_before = sup_members.deep_view();
                    let ghost dirs_before = sup_dirs.deep_view();
                    if !contains_name(&sup_members, m.as_str()) {
                        sup_members.push(m.clone());
                        proof {
                            assert(sup_members.deep_view() =~= mems_before.push(ms[mi as int]));
                        }
                    }
                    let jm = join_union_member_applied(subgraph_name, m);
                    sup_dirs.push(jm);
                    proof {
                        assert(sup_dirs.deep_view() =~~= dirs_before.push(
                            join_union_member_applied_v(subgraph_name@, ms[mi as int]),
                        ));
                        assert(merge_union_members_v(
                            mems_before,
                            dirs_before,
                            subgraph_name@,
                            ms.skip(mi as int),
                        ) == merge_union_members_v(
                            sup_members.deep_view(),
                            sup_dirs.deep_view(),
                            subgraph_name@,
                            ms.skip(mi + 1),
                        ));
                    }
                    mi = mi + 1;
                }
                proof {
                    assert(ms.skip(union_type.members.len() as int) =~= Seq::<Seq<char>>::empty());
                }
                let new_entry = TypeEntry {
                    name: entry.name,
                    built_in: entry.built_in,
                    def: crate::document::TypeDef::Union(
                        crate::document::UnionDef {
                            description: sup_desc,
                            directives: sup_dirs,
                            members: sup_members,
                        },
                    ),
                };
                let ghost new_entry_v = new_entry.deep_view();
                types.insert(idx, new_entry);
                proof {
                    assert(types.deep_view() =~~= types1.update(idx as int, new_entry_v));
                    assert(types.deep_view() =~~= merge_union_type_v(
                        types0,
                        hints0,
                        subgraph_name@,
                        union_name@,
                        union_type.deep_view(),
                    ).0);
                }
            },
            def => {
                let back = TypeEntry { name: entry.name, built_in: entry.built_in, def };
                types.insert(idx, back);
                proof {
                    assert(types.deep_view() =~~= types1);
                    assert(types.deep_view() =~~= merge_union_type_v(
                        types0,
                        hints0,
                        subgraph_name@,
                        union_name@,
                        union_type.deep_view(),
                    ).0);
                }
            },
        }
    }
}

} // verus!

verus! {

// ---------------------------------------------------------------------------
// Interface merging
// ---------------------------------------------------------------------------

/// Finds the index of the field with the given name.
pub fn find_field_entry(
    fields: &Vec<crate::document::FieldDefinition>,
    name: &str,
) -> (r: Option<usize>)
    ensures
        (match r {
            Some(i) => 0 <= i < fields.len() && find_field(fields.deep_view(), name@) == i as int,
            None => find_field(fields.deep_view(), name@) == -1,
        }),
{
    let mut i: usize = 0;
    while i < fields.len()
        invariant
            0 <= i <= fields.len(),
            forall|k: int| 0 <= k < i ==> (#[trigger] fields.deep_view()[k].name) != name@,
        decreases fields.len() - i,
    {
        if str_eq(fields[i].name.as_str(), name) {
            proof {
                lemma_find_field(fields.deep_view(), name@);
                assert(fields.deep_view()[i as int].name == name@);
            }
            return Some(i);
        }
        proof {
            assert(fields.deep_view()[i as int].name != name@);
        }
        i = i + 1;
    }
    proof {
        lemma_find_field(fields.deep_view(), name@);
    }
    None
}

/// The shell a field missing from the supergraph type starts from: the
/// declaring subgraph's name, description and type, no arguments, no
/// directives.
pub open spec fn missing_field_stub_v(f: FieldDefinitionV) -> FieldDefinitionV {
    FieldDefinitionV {
        name: f.name,
        description: f.description,
        arguments: Seq::empty(),
        ty: f.ty,
        directives: Seq::empty(),
    }
}

/// Builds the shell for a field the supergraph type does not have yet.
pub fn missing_field_stub(f: &crate::document::FieldDefinition) -> (r:
    crate::document::FieldDefinition)
    ensures
        r.deep_view() == missing_field_stub_v(f.deep_view()),
{
    let r = crate::document::FieldDefinition {
        name: f.name.clone(),
        description: crate::document::clone_opt_string(&f.description),
        arguments: Vec::new(),
        ty: crate::document::clone_ty(&f.ty),
        directives: Vec::new(),
    };
    proof {
        assert(r.deep_view() =~~= missing_field_stub_v(f.deep_view()));
    }
    r
}

/// How one subgraph's interface fields fold in: a field the supergraph does
/// not know yet is added as a shell; a known field is left as first seen.
pub open spec fn merge_interface_fields_v(
    fields: Seq<FieldDefinitionV>,
    sfs: Seq<FieldDefinitionV>,
) -> Seq<FieldDefinitionV>
    decreases sfs.len(),
{
    if sfs.len() == 0 {
        fields
    } else {
        let f = sfs[0];
        let fields1 = if find_field(fields, f.name) == -1 {
            fields.push(missing_field_stub_v(f))
        } else {
            fields
        };
        merge_interface_fields_v(fields1, sfs.drop_first())
    }
}

/// Every `@key` application on the definition carries a string `fields`
/// argument; locally valid federation subgraphs guarantee this.
pub open spec fn interface_def_wf(i: crate::document::InterfaceDefV) -> bool {
    key_directives_wf(filter_named(i.directives, "key"@))
}

/// How one subgraph's interface type folds in: a stub on first sight, one
/// `@join__type` per key (or a graph-only one), and the field-name union.
/// A name already taken by another kind is left untouched; hints never
/// change here.
pub open spec fn merge_interface_type_v(
    types: Seq<TypeEntryV>,
    hints: Seq<Seq<char>>,
    token: Seq<char>,
    name: Seq<char>,
    intf: crate::document::InterfaceDefV,
) -> (Seq<TypeEntryV>, Seq<Seq<char>>) {
    let i0 = find_type(types, name);
    let types1 = if i0 == -1 {
        types.push(TypeEntryV { name: name, built_in: false, def: copy_interface_type_v(intf) })
    } else {
        types
    };
    let idx = if i0 == -1 {
        types.len() as int
    } else {
        i0
    };
    match types1[idx].def {
        crate::document::TypeDefV::Interface(sup) => {
            let key_dirs = filter_named(intf.directives, "key"@);
            let dirs = sup.directives + join_type_applied_v(token, key_dirs, false);
            let fields = merge_interface_fields_v(sup.fields, intf.fields);
            (
                types1.update(
                    idx,
                    TypeEntryV {
                        name: types1[idx].name,
                        built_in: types1[idx].built_in,
                        def: crate::document::TypeDefV::Interface(
                            crate::document::InterfaceDefV {
                                description: sup.description,
                                directives: dirs,
                                implements_interfaces: sup.implements_interfaces,
                                fields: fields,
                            },
                        ),
                    },
                ),
                hints,
            )
        },
        _ => (types1, hints),
    }
}

impl Merger {
    /// Folds one subgraph's interface type into the supergraph type map.
    #[verifier::loop_isolation(false)]
    pub fn merge_interface_type(
        &mut self,
        types: &mut Vec<TypeEntry>,
        subgraph_name: &String,
        interface_name: &String,
        interface: &crate::document::InterfaceDef,
    )
        requires
            interface_def_wf(interface.deep_view()),
        ensures
            ({
                let (t, h) = merge_interface_type_v(
                    old(types).deep_view(),
                    old(self).composition_hints.deep_view(),
                    subgraph_name@,
                    interface_name@,
                    interface.deep_view(),
                );
                final(types).deep_view() == t && final(self).composition_hints.deep_view() == h
            }),
            final(self).errors == old(self).errors,
    {
        let ghost types0 = types.deep_view();
        let ghost hints0 = self.composition_hints.deep_view();
        let idx: usize = match find_type_entry(types, interface_name.as_str()) {
            Some(i) => i,
            None => {
                let stub = TypeEntry {
                    name: interface_name.clone(),
                    built_in: false,
                    def: copy_interface_type(interface),
                };
                types.push(stub);
                types.len() - 1
            },
        };
        let ghost types1 = types.deep_view();
        proof {
            assert(types1 =~~= ({
                let i0 = find_type(types0, interface_name@);
                if i0 == -1 {
                    types0.push(
                        TypeEntryV {
                            name: interface_name@,
                            built_in: false,
                            def: copy_interface_type_v(interface.deep_view()),
                        },
                    )
                } else {
                    types0
                }
            }));
        }
        let entry = types.remove(idx);
        match entry.def {
            crate::document::TypeDef::Interface(sup) => {
                let crate::document::InterfaceDef {
                    description: sup_desc,
                    directives: mut sup_dirs,
                    implements_interfaces: sup_impls,
                    fields: mut sup_fields,
                } = sup;
                let key_dirs = directives_named(&interface.directives, "key");
                let jt = join_type_applied_directive(subgraph_name, &key_dirs, false);
                append_directives(&mut sup_dirs, &jt);
                let ghost fields0 = sup_fields.deep_view();
                let ghost sfs = interface.deep_view().fields;
                let mut fi: usize = 0;
                proof {
                    assert(sfs.skip(0) =~= sfs);
                }
                while fi < interface.fields.len()
                    invariant
                        0 <= fi <= interface.fields.len(),
                        merge_interface_fields_v(fields0, sfs) == merge_interface_fields_v(
                            sup_fields.deep_view(),
                            sfs.skip(fi as int),
                        ),
                    decreases interface.fields.len() - fi,
                {
                    proof {
                        assert(sfs.skip(fi as int)[0] == sfs[fi as int]);
                        assert(sfs.skip(fi as int).drop_first() =~= sfs.skip(fi + 1));
                    }
                    let f = &interface.fields[fi];
                    proof {
                        assert(f.deep_view() == sfs[fi as int]);
                    }
                    let ghost fields_before = sup_fields.deep_view();
                    match find_field_entry(&sup_fields, f.name.as_str()) {
                        Some(_) => {},
                        None => {
                            let stub = missing_field_stub(f);
                            sup_fields.push(stub);
                            proof {
                                assert(sup_fields.deep_view() =~~= fields_before.push(
                                    missing_field_stub_v(sfs[fi as int]),
                                ));
                            }
                        },
                    }
                    proof {
                        assert(merge_interface_fields_v(fields_before, sfs.skip(fi as int))
                            == merge_interface_fields_v(
                            sup_fields.deep_view(),
                            sfs.skip(fi + 1),
                        ));
                    }
                    fi = fi + 1;
                }
                proof {
                    assert(sfs.skip(interface.fields.len() as int) =~= Seq::<
                        FieldDefinitionV,
                    >::empty());
                }
                let new_entry = TypeEntry {
                    name: entry.name,
                    built_in: entry.built_in,
                    def: crate::document::TypeDef::Interface(
                        crate::document::InterfaceDef {
                            description: sup_desc,
                            directives: sup_dirs,
                            implements_interfaces: sup_impls,
                            fields: sup_fields,
                        },
                    ),
                };
                let ghost new_entry_v = new_entry.deep_view();
                types.insert(idx, new_entry);
                proof {
                    assert(types.deep_view() =~~= types1.update(idx as int, new_entry_v));
                    assert(types.deep_view() =~~= merge_interface_type_v(
                        types0,
                        hints0,
                        subgraph_name@,
                        interface_name@,
                        interface.deep_view(),
                    ).0);
                }
            },
            def => {
                let back = TypeEntry { name: entry.name, built_in: entry.built_in, def };
                types.insert(idx, back);
                proof {
                    assert(types.deep_view() =~~= types1);
                    assert(types.deep_view() =~~= merge_interface_type_v(
                        types0,
                        hints0,
                        subgraph_name@,
                        interface_name@,
                        interface.deep_view(),
                    ).0);
                }
            },
        }
    }
}

} // verus!

verus! {

// ---------------------------------------------------------------------------
// Object merging
// ---------------------------------------------------------------------------

/// The `fields` string of the field's first `@requires`, if any.
pub open spec fn requires_of(f: FieldDefinitionV) -> Option<Seq<char>> {
    match first_named(f.directives, "requires"@) {
        Some(d) => str_arg(d, "fields"@),
        None => None,
    }
}

/// The `fields` string of the field's first `@provides`, if any.
pub open spec fn provides_of(f: FieldDefinitionV) -> Option<Seq<char>> {
    match first_named(f.directives, "provides"@) {
        Some(d) => str_arg(d, "fields"@),
        None => None,
    }
}

/// Whether the field is annotated `@external`.
pub open spec fn external_of(f: FieldDefinitionV) -> bool {
    first_named(f.directives, "external"@) is Some
}

/// The field's `@requires` and `@provides`, when present, carry a string
/// `fields` argument; locally valid federation subgraphs guarantee this.
pub open spec fn field_req_prov_wf(f: FieldDefinitionV) -> bool {
    (match first_named(f.directives, "requires"@) {
        Some(d) => str_arg(d, "fields"@) is Some,
        None => true,
    }) && (match first_named(f.directives, "provides"@) {
        Some(d) => str_arg(d, "fields"@) is Some,
        None => true,
    })
}

/// What local validity guarantees of an object declaration: every `@key`
/// has a string `fields` argument, and so does every field's `@requires`
/// and `@provides`.
pub open spec fn object_def_wf(o: crate::document::ObjectDefV) -> bool {
    key_directives_wf(filter_named(o.directives, "key"@)) && (forall|k: int|
        0 <= k < o.fields.len() ==> field_req_prov_wf(#[trigger] o.fields[k]))
}

/// How one subgraph's interface relations fold in: the implemented set
/// unions in declaration order, and every declared relation adds one
/// `@join__implements` for this subgraph.
pub open spec fn merge_implements_v(
    impls: Seq<Seq<char>>,
    dirs: Seq<DirectiveV>,
    token: Seq<char>,
    is: Seq<Seq<char>>,
) -> (Seq<Seq<char>>, Seq<DirectiveV>)
    decreases is.len(),
{
    if is.len() == 0 {
        (impls, dirs)
    } else {
        let m = is[0];
        let impls1 = if impls.contains(m) {
            impls
        } else {
            impls.push(m)
        };
        let dirs1 = dirs.push(join_type_implements_v(token, m));
        merge_implements_v(impls1, dirs1, token, is.drop_first())
    }
}

/// How one subgraph's object fields fold in.  The federation-internal query
/// fields are skipped.  A missing field is added as a shell, descriptions
/// merge, and when the type is keyed in this subgraph (or is `Query`) every
/// non-key field picks up one `@join__field` recording this subgraph's
/// `@requires`, `@provides` and `@external`.
pub open spec fn merge_object_fields_v(
    fields: Seq<FieldDefinitionV>,
    hints: Seq<Seq<char>>,
    token: Seq<char>,
    sfs: Seq<FieldDefinitionV>,
    is_join_field: bool,
    keys: Seq<Seq<char>>,
) -> (Seq<FieldDefinitionV>, Seq<Seq<char>>)
    decreases sfs.len(),
{
    if sfs.len() == 0 {
        (fields, hints)
    } else {
        let f = sfs[0];
        if skipped_field_name(f.name) {
            merge_object_fields_v(fields, hints, token, sfs.drop_first(), is_join_field, keys)
        } else {
            let j0 = find_field(fields, f.name);
            let fields1 = if j0 == -1 {
                fields.push(missing_field_stub_v(f))
            } else {
                fields
            };
            let j = if j0 == -1 {
                fields.len() as int
            } else {
                j0
            };
            let fld = fields1[j];
            let (d, hints1) = merge_desc_v(fld.description, f.description, hints);
            let fld1 = if is_join_field && !keys.contains(f.name) {
                FieldDefinitionV {
                    name: fld.name,
                    description: d,
                    arguments: fld.arguments,
                    ty: fld.ty,
                    directives: fld.directives.push(
                        join_field_applied_v(token, requires_of(f), provides_of(f), external_of(f)),
                    ),
                }
            } else {
                FieldDefinitionV {
                    name: fld.name,
                    description: d,
                    arguments: fld.arguments,
                    ty: fld.ty,
                    directives: fld.directives,
                }
            };
            merge_object_fields_v(
                fields1.update(j, fld1),
                hints1,
                token,
                sfs.drop_first(),
                is_join_field,
                keys,
            )
        }
    }
}

/// How one subgraph's object type folds in.  A stub (an interface shell
/// under `@interfaceObject`) is created on first sight.  Onto an object:
/// one `@join__type` per key, description merge, interface-relation union
/// with `@join__implements`, and the field fold.  Onto an interface of the
/// same name — another subgraph modelled it via `@interfaceObject` — only
/// the keyed `@join__type` applications marked `isInterfaceObject: true`
/// are attached.  Any other kind is left untouched.
pub open spec fn merge_object_type_v(
    types: Seq<TypeEntryV>,
    hints: Seq<Seq<char>>,
    token: Seq<char>,
    name: Seq<char>,
    obj: crate::document::ObjectDefV,
) -> (Seq<TypeEntryV>, Seq<Seq<char>>) {
    let is_interface_object = has_named(obj.directives, "interfaceObject"@);
    let i0 = find_type(types, name);
    let types1 = if i0 == -1 {
        types.push(
            TypeEntryV {
                name: name,
                built_in: false,
                def: copy_object_type_stub_v(obj, is_interface_object),
            },
        )
    } else {
        types
    };
    let idx = if i0 == -1 {
        types.len() as int
    } else {
        i0
    };
    match types1[idx].def {
        crate::document::TypeDefV::Object(sup) => {
            let key_dirs = filter_named(obj.directives, "key"@);
            let keys = key_tokens(key_dirs);
            let is_join_field = keys.len() > 0 || name == "Query"@;
            let dirs1 = sup.directives + join_type_applied_v(token, key_dirs, false);
            let (d, hints1) = merge_desc_v(sup.description, obj.description, hints);
            let (impls, dirs2) = merge_implements_v(
                sup.implements_interfaces,
                dirs1,
                token,
                obj.implements_interfaces,
            );
            let (fields, hints2) = merge_object_fields_v(
                sup.fields,
                hints1,
                token,
                obj.fields,
                is_join_field,
                keys,
            );
            (
                types1.update(
                    idx,
                    TypeEntryV {
                        name: types1[idx].name,
                        built_in: types1[idx].built_in,
                        def: crate::document::TypeDefV::Object(
                            crate::document::ObjectDefV {
                                description: d,
                                directives: dirs2,
                                implements_interfaces: impls,
                                fields: fields,
                            },
                        ),
                    },
                ),
                hints2,
            )
        },
        crate::document::TypeDefV::Interface(sup) => {
            let key_dirs = filter_named(obj.directives, "key"@);
            let dirs = sup.directives + join_type_applied_v(token, key_dirs, true);
            (
                types1.update(
                    idx,
                    TypeEntryV {
                        name: types1[idx].name,
                        built_in: types1[idx].built_in,
                        def: crate::document::TypeDefV::Interface(
                            crate::document::InterfaceDefV {
                                description: sup.description,
                                directives: dirs,
                                implements_interfaces: sup.implements_interfaces,
                                fields: sup.fields,
                            },
                        ),
                    },
                ),
                hints,
            )
        },
        _ => (types1, hints),
    }
}

impl Merger {
    /// Folds one subgraph's object type into the supergraph type map.
    #[verifier::loop_isolation(false)]
    pub fn merge_object_type(
        &mut self,
        types: &mut Vec<TypeEntry>,
        subgraph_name: &String,
        object_name: &String,
        object: &crate::document::ObjectDef,
    )
        requires
            object_def_wf(object.deep_view()),
        ensures
            ({
                let (t, h) = merge_object_type_v(
                    old(types).deep_view(),
                    old(self).composition_hints.deep_view(),
                    subgraph_name@,
                    object_name@,
                    object.deep_view(),
                );
                final(types).deep_view() == t && final(self).composition_hints.deep_view() == h
            }),
            final(self).errors == old(self).errors,
    {
        let ghost types0 = types.deep_view();
        let ghost hints0 = self.composition_hints.deep_view();
        let is_interface_object = has_directive(&object.directives, "interfaceObject");
        let idx: usize = match find_type_entry(types, object_name.as_str()) {
            Some(i) => i,
            None => {
                let stub = TypeEntry {
                    name: object_name.clone(),
                    built_in: false,
                    def: copy_object_type_stub(object, is_interface_object),
                };
                types.push(stub);
                types.len() - 1
            },
        };
        let ghost types1 = types.deep_view();
        proof {
            assert(types1 =~~= ({
                let i0 = find_type(types0, object_name@);
                if i0 == -1 {
                    types0.push(
                        TypeEntryV {
                            name: object_name@,
                            built_in: false,
                            def: copy_object_type_stub_v(
                                object.deep_view(),
                                has_named(object.deep_view().directives, "interfaceObject"@),
                            ),
                        },
                    )
                } else {
                    types0
                }
            }));
        }
        let entry = types.remove(idx);
        match entry.def {
            crate::document::TypeDef::Object(sup) => {
                let crate::document::ObjectDef {
                    description: mut sup_desc,
                    directives: mut sup_dirs,
                    implements_interfaces: mut sup_impls,
                    fields: mut sup_fields,
                } = sup;
                let key_dirs = directives_named(&object.directives, "key");
                let keys = parse_keys(&key_dirs);
                let is_join_field = keys.len() > 0 || str_eq(object_name.as_str(), "Query");
                let jt = join_type_applied_directive(subgraph_name, &key_dirs, false);
                append_directives(&mut sup_dirs, &jt);
                self.merge_descriptions(&mut sup_desc, &object.description);
                let ghost hints1 = self.composition_hints.deep_view();

                let ghost impls0 = sup_impls.deep_view();
                let ghost dirs0 = sup_dirs.deep_view();
                let ghost is = object.deep_view().implements_interfaces;
                let mut ii: usize = 0;
                proof {
                    assert(is.skip(0) =~= is);
                }
                while ii < object.implements_interfaces.len()
                    invariant
                        0 <= ii <= object.implements_interfaces.len(),
                        merge_implements_v(impls0, dirs0, subgraph_name@, is)
                            == merge_implements_v(
                            sup_impls.deep_view(),
                            sup_dirs.deep_view(),
                            subgraph_name@,
                            is.skip(ii as int),
                        ),
                    decreases object.implements_interfaces.len() - ii,
                {
                    proof {
                        assert(is.skip(ii as int)[0] == is[ii as int]);
                        assert(is.skip(ii as int).drop_first() =~= is.skip(ii + 1));
                    }
                    let m = &object.implements_interfaces[ii];
                    proof {
                        assert(m.deep_view() == is[ii as int]);
                    }
                    let ghost impls_before = sup_impls.deep_view();
                    let ghost dirs_before = sup_dirs.deep_view();
                    if !contains_name(&sup_impls, m.as_str()) {
                        sup_impls.push(m.clone());
                        proof {
                            assert(sup_impls.deep_view() =~= impls_before.push(is[ii as int]));
                        }
                    }
                    let ji = join_type_implements(subgraph_name, m);
                    sup_dirs.push(ji);
                    proof {
                        assert(sup_dirs.deep_view() =~~= dirs_before.push(
                            join_type_implements_v(subgraph_name@, is[ii as int]),
                        ));
                        assert(merge_implements_v(
                            impls_before,
                            dirs_before,
                            subgraph_name@,
                            is.skip(ii as int),
                        ) == merge_implements_v(
                            sup_impls.deep_view(),
                            sup_dirs.deep_view(),
                            subgraph_name@,
                            is.skip(ii + 1),
                        ));
                    }
                    ii = ii + 1;
                }
                proof {
                    assert(is.skip(object.implements_interfaces.len() as int) =~= Seq::<
                        Seq<char>,
                    >::empty());
                }

                let ghost fields0 = sup_fields.deep_view();
                let ghost sfs = object.deep_view().fields;
                let ghost keys_v = keys.deep_view();
                let ghost ijf = (keys.deep_view().len() > 0 || object_name@ == "Query"@);
                proof {
                    assert(is_join_field == ijf);
                }
                let mut fi: usize = 0;
                proof {
                    assert(sfs.skip(0) =~= sfs);
                }
                while fi < object.fields.len()
                    invariant
                        0 <= fi <= object.fields.len(),
                        self.errors == old(self).errors,
                        merge_object_fields_v(fields0, hints1, subgraph_name@, sfs, ijf, keys_v)
                            == merge_object_fields_v(
                            sup_fields.deep_view(),
                            self.composition_hints.deep_view(),
                            subgraph_name@,
                            sfs.skip(fi as int),
                            ijf,
                            keys_v,
                        ),
                    decreases object.fields.len() - fi,
                {
                    proof {
                        assert(sfs.skip(fi as int)[0] == sfs[fi as int]);
                        assert(sfs.skip(fi as int).drop_first() =~= sfs.skip(fi + 1));
                    }
                    let f = &object.fields[fi];
                    proof {
                        assert(f.deep_view() == sfs[fi as int]);
                        assert(field_req_prov_wf(sfs[fi as int]));
                    }
                    if str_eq(f.name.as_str(), "_service") || str_eq(f.name.as_str(), "_entities") {
                        proof {
                            assert(skipped_field_name(sfs[fi as int].name));
                        }
                    } else {
                        let ghost fields_before = sup_fields.deep_view();
                        let ghost hints_before = self.composition_hints.deep_view();
                        let j: usize = match find_field_entry(&sup_fields, f.name.as_str()) {
                            Some(j) => j,
                            None => {
                                let stub = missing_field_stub(f);
                                sup_fields.push(stub);
                                sup_fields.len() - 1
                            },
                        };
                        let ghost fields1 = sup_fields.deep_view();
                        proof {
                            assert(fields1 =~~= ({
                                let j0 = find_field(fields_before, sfs[fi as int].name);
                                if j0 == -1 {
                                    fields_before.push(missing_field_stub_v(sfs[fi as int]))
                                } else {
                                    fields_before
                                }
                            }));
                        }
                        let mut fld = sup_fields.remove(j);
                        proof {
                            assert(fld.deep_view() == fields1[j as int]);
                        }
                        self.merge_descriptions(&mut fld.description, &f.description);
                        let is_key_field = contains_name(&keys, f.name.as_str());
                        if is_join_field && !is_key_field {
                            let requires_fields: Option<&String> = match first_directive_named(
                                &f.directives,
                                "requires",
                            ) {
                                Some(d) => match directive_string_arg_value(d, "fields") {
                                    Some(s) => Some(s),
                                    None => {
                                        proof {
                                            assert(false);
                                        }
                                        unreached()
                                    },
                                },
                                None => None,
                            };
                            let provides_fields: Option<&String> = match first_directive_named(
                                &f.directives,
                                "provides",
                            ) {
                                Some(d) => match directive_string_arg_value(d, "fields") {
                                    Some(s) => Some(s),
                                    None => {
                                        proof {
                                            assert(false);
                                        }
                                        unreached()
                                    },
                                },
                                None => None,
                            };
                            let external_field = match first_directive_named(
                                &f.directives,
                                "external",
                            ) {
                                Some(_) => true,
                                None => false,
                            };
                            let jf = join_field_applied_directive(
                                subgraph_name,
                                requires_fields,
                                provides_fields,
                                external_field,
                            );
                            proof {
                                assert(requires_fields.deep_view() == requires_of(sfs[fi as int]));
                                assert(provides_fields.deep_view() == provides_of(sfs[fi as int]));
                                assert(external_field == external_of(sfs[fi as int]));
                            }
                            fld.directives.push(jf);
                        }
                        let ghost fld1 = fld.deep_view();
                        sup_fields.insert(j, fld);
                        proof {
                            assert(sup_fields.deep_view() =~~= fields1.update(j as int, fld1));
                            let spec_fld = fields1[j as int];
                            let (spec_d, spec_h) = merge_desc_v(
                                spec_fld.description,
                                sfs[fi as int].description,
                                hints_before,
                            );
                            assert(self.composition_hints.deep_view() == spec_h);
                            if ijf && !keys_v.contains(sfs[fi as int].name) {
                                assert(fld1 =~~= (FieldDefinitionV {
                                    name: spec_fld.name,
                                    description: spec_d,
                                    arguments: spec_fld.arguments,
                                    ty: spec_fld.ty,
                                    directives: spec_fld.directives.push(
                                        join_field_applied_v(
                                            subgraph_name@,
                                            requires_of(sfs[fi as int]),
                                            provides_of(sfs[fi as int]),
                                            external_of(sfs[fi as int]),
                                        ),
                                    ),
                                }));
                            } else {
                                assert(fld1 =~~= (FieldDefinitionV {
                                    name: spec_fld.name,
                                    description: spec_d,
                                    arguments: spec_fld.arguments,
                                    ty: spec_fld.ty,
                                    directives: spec_fld.directives,
                                }));
                            }
                            assert(merge_object_fields_v(
                                fields_before,
                                hints_before,
                                subgraph_name@,
                                sfs.skip(fi as int),
                                ijf,
                                keys_v,
                            ) == merge_object_fields_v(
                                sup_fields.deep_view(),
                                self.composition_hints.deep_view(),
                                subgraph_name@,
                                sfs.skip(fi + 1),
                                ijf,
                                keys_v,
                            ));
                        }
                    }
                    fi = fi + 1;
                }
                proof {
                    assert(sfs.skip(object.fields.len() as int) =~= Seq::<
                        FieldDefinitionV,
                    >::empty());
                }
                let new_entry = TypeEntry {
                    name: entry.name,
                    built_in: entry.built_in,
                    def: crate::document::TypeDef::Object(
                        crate::document::ObjectDef {
                            description: sup_desc,
                            directives: sup_dirs,
                            implements_interfaces: sup_impls,
                            fields: sup_fields,
                        },
                    ),
                };
                let ghost new_entry_v = new_entry.deep_view();
                types.insert(idx, new_entry);
                proof {
                    assert(types.deep_view() =~~= types1.update(idx as int, new_entry_v));
                    assert(types.deep_view() =~~= merge_object_type_v(
                        types0,
                        hints0,
                        subgraph_name@,
                        object_name@,
                        object.deep_view(),
                    ).0);
                }
            },
            crate::document::TypeDef::Interface(sup) => {
                let crate::document::InterfaceDef {
                    description: sup_desc,
                    directives: mut sup_dirs,
                    implements_interfaces: sup_impls,
                    fields: sup_fields,
                } = sup;
                let key_dirs = directives_named(&object.directives, "key");
                let jt = join_type_applied_directive(subgraph_name, &key_dirs, true);
                append_directives(&mut sup_dirs, &jt);
                let new_entry = TypeEntry {
                    name: entry.name,
                    built_in: entry.built_in,
                    def: crate::document::TypeDef::Interface(
                        crate::document::InterfaceDef {
                            description: sup_desc,
                            directives: sup_dirs,
                            implements_interfaces: sup_impls,
                            fields: sup_fields,
                        },
                    ),
                };
                let ghost new_entry_v = new_entry.deep_view();
                types.insert(idx, new_entry);
                proof {
                    assert(types.deep_view() =~~= types1.update(idx as int, new_entry_v));
                    assert(types.deep_view() =~~= merge_object_type_v(
                        types0,
                        hints0,
                        subgraph_name@,
                        object_name@,
                        object.deep_view(),
                    ).0);
                }
            },
            def => {
                let back = TypeEntry { name: entry.name, built_in: entry.built_in, def };
                types.insert(idx, back);
                proof {
                    assert(types.deep_view() =~~= types1);
                    assert(types.deep_view() =~~= merge_object_type_v(
                        types0,
                        hints0,
                        subgraph_name@,
                        object_name@,
                        object.deep_view(),
                    ).0);
                }
            },
        }
    }
}

} // verus!

verus! {

// ---------------------------------------------------------------------------
// Whole-subgraph folds
// ---------------------------------------------------------------------------

/// What local validity guarantees of a subgraph's type definitions.
pub open spec fn entries_wf(entries: Seq<TypeEntryV>) -> bool {
    forall|k: int|
        0 <= k < entries.len() ==> (match (#[trigger] entries[k]).def {
            crate::document::TypeDefV::Object(o) => object_def_wf(o),
            crate::document::TypeDefV::Interface(i) => interface_def_wf(i),
            _ => true,
        })
}

/// What local validity guarantees of a whole subgraph document.
pub open spec fn subgraph_doc_wf(d: crate::document::DocumentV) -> bool {
    entries_wf(d.types)
}

/// Every subgraph handed to composition is locally valid in the sense the
/// merge relies on.
pub open spec fn subgraphs_wf(s: Seq<crate::document::SubgraphV>) -> bool {
    forall|k: int| 0 <= k < s.len() ==> subgraph_doc_wf((#[trigger] s[k]).schema)
}

/// How one subgraph's named types fold into the supergraph type map, in
/// declaration order: built-ins and federation-internal names are skipped,
/// everything else goes to its kind's merge rule; scalars merge by identity
/// and contribute nothing.
pub open spec fn merge_types_v(
    types: Seq<TypeEntryV>,
    hints: Seq<Seq<char>>,
    token: Seq<char>,
    entries: Seq<TypeEntryV>,
) -> (Seq<TypeEntryV>, Seq<Seq<char>>)
    decreases entries.len(),
{
    if entries.len() == 0 {
        (types, hints)
    } else {
        let e = entries[0];
        let stepped = if e.built_in || !mergeable_type_name(e.name) {
            (types, hints)
        } else {
            match e.def {
                crate::document::TypeDefV::Enum(d) => merge_enum_type_v(
                    types,
                    hints,
                    token,
                    e.name,
                    d,
                ),
                crate::document::TypeDefV::InputObject(d) => merge_input_object_type_v(
                    types,
                    hints,
                    token,
                    e.name,
                    d,
                ),
                crate::document::TypeDefV::Interface(d) => merge_interface_type_v(
                    types,
                    hints,
                    token,
                    e.name,
                    d,
                ),
                crate::document::TypeDefV::Object(d) => merge_object_type_v(
                    types,
                    hints,
                    token,
                    e.name,
                    d,
                ),
                crate::document::TypeDefV::Union(d) => merge_union_type_v(
                    types,
                    hints,
                    token,
                    e.name,
                    d,
                ),
                crate::document::TypeDefV::Scalar(_) => (types, hints),
            }
        };
        merge_types_v(stepped.0, stepped.1, token, entries.drop_first())
    }
}

/// How one subgraph's executable directive definitions fold in: deduped by
/// name, first writer wins.  The supergraph document models only explicit
/// definitions, while every GraphQL document implicitly carries the
/// language's own directives; a subgraph's copy of one of those reserved
/// names is therefore already deduped and never re-added.
pub open spec fn merge_directives_v(
    defs: Seq<DirectiveDefinitionV>,
    dds: Seq<DirectiveDefinitionV>,
) -> Seq<DirectiveDefinitionV>
    decreases dds.len(),
{
    if dds.len() == 0 {
        defs
    } else {
        let defs1 = if executable_directive(dds[0]) && !reserved_directive_name(dds[0].name) {
            merge_directive_v(defs, dds[0])
        } else {
            defs
        };
        merge_directives_v(defs1, dds.drop_first())
    }
}

impl Merger {
    /// Folds every mergeable named type of one subgraph into the supergraph
    /// type map.
    #[verifier::loop_isolation(false)]
    pub fn merge_subgraph_types(
        &mut self,
        types: &mut Vec<TypeEntry>,
        token: &String,
        entries: &Vec<TypeEntry>,
    )
        requires
            entries_wf(entries.deep_view()),
        ensures
            ({
                let (t, h) = merge_types_v(
                    old(types).deep_view(),
                    old(self).composition_hints.deep_view(),
                    token@,
                    entries.deep_view(),
                );
                final(types).deep_view() == t && final(self).composition_hints.deep_view() == h
            }),
            final(self).errors == old(self).errors,
    {
        let ghost types0 = old(types).deep_view();
        let ghost hints0 = old(self).composition_hints.deep_view();
        let ghost es = entries.deep_view();
        let mut i: usize = 0;
        proof {
            assert(es.skip(0) =~= es);
        }
        while i < entries.len()
            invariant
                0 <= i <= entries.len(),
                self.errors == old(self).errors,
                merge_types_v(types0, hints0, token@, es) == merge_types_v(
                    types.deep_view(),
                    self.composition_hints.deep_view(),
                    token@,
                    es.skip(i as int),
                ),
            decreases entries.len() - i,
        {
            proof {
                assert(es.skip(i as int)[0] == es[i as int]);
                assert(es.skip(i as int).drop_first() =~= es.skip(i + 1));
            }
            let entry = &entries[i];
            proof {
                assert(entry.deep_view() == es[i as int]);
            }
            if entry.built_in || !is_mergeable_type(entry.name.as_str()) {
            } else {
                match &entry.def {
                    crate::document::TypeDef::Enum(d) => {
                        self.merge_enum_type(types, token, &entry.name, d);
                    },
                    crate::document::TypeDef::InputObject(d) => {
                        self.merge_input_object_type(types, token, &entry.name, d);
                    },
                    crate::document::TypeDef::Interface(d) => {
                        self.merge_interface_type(types, token, &entry.name, d);
                    },
                    crate::document::TypeDef::Object(d) => {
                        self.merge_object_type(types, token, &entry.name, d);
                    },
                    crate::document::TypeDef::Union(d) => {
                        self.merge_union_type(types, token, &entry.name, d);
                    },
                    crate::document::TypeDef::Scalar(_) => {},
                }
            }
            i = i + 1;
        }
        proof {
            assert(es.skip(entries.len() as int) =~= Seq::<TypeEntryV>::empty());
        }
    }
}

/// Folds one subgraph's executable directive definitions into the
/// supergraph's set.
#[verifier::loop_isolation(false)]
pub fn merge_subgraph_directives(
    defs: &mut Vec<DirectiveDefinition>,
    dds: &Vec<DirectiveDefinition>,
)
    ensures
        final(defs).deep_view() == merge_directives_v(old(defs).deep_view(), dds.deep_view()),
{
    let ghost defs0 = old(defs).deep_view();
    let ghost ds = dds.deep_view();
    let mut i: usize = 0;
    proof {
        assert(ds.skip(0) =~= ds);
    }
    while i < dds.len()
        invariant
            0 <= i <= dds.len(),
            merge_directives_v(defs0, ds) == merge_directives_v(
                defs.deep_view(),
                ds.skip(i as int),
            ),
        decreases dds.len() - i,
    {
        proof {
            assert(ds.skip(i as int)[0] == ds[i as int]);
            assert(ds.skip(i as int).drop_first() =~= ds.skip(i + 1));
        }
        let dd = &dds[i];
        proof {
            assert(dd.deep_view() == ds[i as int]);
        }
        let reserved = str_eq(dd.name.as_str(), "skip") || str_eq(dd.name.as_str(), "include")
            || str_eq(dd.name.as_str(), "deprecated") || str_eq(dd.name.as_str(), "specifiedBy");
        if is_executable_directive(dd) && !reserved {
            merge_directive(defs, dd);
        }
        i = i + 1;
    }
    proof {
        assert(ds.skip(dds.len() as int) =~= Seq::<DirectiveDefinitionV>::empty());
    }
}

/// How one whole subgraph folds into the supergraph: its schema definition,
/// then its named types, then its executable directive definitions.
pub open spec fn merge_one_subgraph_v(
    doc: crate::document::DocumentV,
    hints: Seq<Seq<char>>,
    sub: crate::document::SubgraphV,
    token: Seq<char>,
) -> (crate::document::DocumentV, Seq<Seq<char>>) {
    let (doc1, h1) = merge_schema_v(doc, hints, sub.schema);
    let (types2, h2) = merge_types_v(doc1.types, h1, token, sub.schema.types);
    let defs3 = merge_directives_v(doc1.directive_definitions, sub.schema.directive_definitions);
    (
        crate::document::DocumentV {
            types: types2,
            directive_definitions: defs3,
            ..doc1
        },
        h2,
    )
}

/// The fold of all subgraphs, in sorted order, each with its token.
pub open spec fn merge_all_v(
    doc: crate::document::DocumentV,
    hints: Seq<Seq<char>>,
    subs: Seq<crate::document::SubgraphV>,
    tokens: Seq<Seq<char>>,
) -> (crate::document::DocumentV, Seq<Seq<char>>)
    decreases subs.len(),
{
    if subs.len() == 0 {
        (doc, hints)
    } else {
        let (d1, h1) = merge_one_subgraph_v(doc, hints, subs[0], tokens[0]);
        merge_all_v(d1, h1, subs.drop_first(), tokens.drop_first())
    }
}

// ---------------------------------------------------------------------------
// Tokens and the top level
// ---------------------------------------------------------------------------

/// The error recorded for a subgraph whose name yields no legal token.
pub open spec fn token_error_msg() -> Seq<char> {
    "Subgraph name couldn't be transformed into valid GraphQL name"@
}

/// One error per subgraph, in order, whose name yields no legal token.
pub open spec fn token_errors_v(subs: Seq<crate::document::SubgraphV>) -> Seq<Seq<char>>
    decreases subs.len(),
{
    if subs.len() == 0 {
        Seq::empty()
    } else {
        token_errors_v(subs.drop_last()) + (if crate::token::token_of(subs.last().name) is None {
            seq![token_error_msg()]
        } else {
            Seq::empty()
        })
    }
}

/// No token errors means every subgraph has a token.
pub proof fn lemma_token_errors_empty(subs: Seq<crate::document::SubgraphV>)
    ensures
        token_errors_v(subs).len() == 0 <==> (forall|k: int|
            0 <= k < subs.len() ==> crate::token::token_of(
                (#[trigger] subs[k]).name,
            ) is Some),
    decreases subs.len(),
{
    if subs.len() > 0 {
        lemma_token_errors_empty(subs.drop_last());
        assert(subs[subs.len() - 1] == subs.last());
        if token_errors_v(subs).len() == 0 {
            assert(token_errors_v(subs.drop_last()).len() == 0);
            assert(crate::token::token_of(subs.last().name) is Some);
            assert forall|k: int| 0 <= k < subs.len() implies crate::token::token_of(
                (#[trigger] subs[k]).name,
            ) is Some by {
                if k < subs.len() - 1 {
                    assert(subs.drop_last()[k] == subs[k]);
                    assert(crate::token::token_of(subs.drop_last()[k].name) is Some);
                }
            }
        }
        if forall|k: int|
            0 <= k < subs.len() ==> crate::token::token_of((#[trigger] subs[k]).name) is Some {
            assert forall|k: int| 0 <= k < subs.drop_last().len() implies crate::token::token_of(
                (#[trigger] subs.drop_last()[k]).name,
            ) is Some by {
                assert(subs.drop_last()[k] == subs[k]);
            }
            assert(token_errors_v(subs.drop_last()).len() == 0);
            assert(crate::token::token_of(subs.last().name) is Some);
        }
    }
}

/// An option's content, or the empty sequence.
pub open spec fn token_or_empty(o: Option<Seq<char>>) -> Seq<char> {
    match o {
        Some(s) => s,
        None => Seq::empty(),
    }
}

/// The tokens of the subgraphs, in order.
pub open spec fn tokens_of_v(subs: Seq<crate::document::SubgraphV>) -> Seq<Seq<char>> {
    Seq::new(subs.len(), |k: int| token_or_empty(crate::token::token_of(subs[k].name)))
}

/// A successful composition, or a failed one with the diagnostics and a
/// best-effort partial schema.
pub enum MergeResultV {
    Success { schema: crate::document::DocumentV, hints: Seq<Seq<char>> },
    Failure { schema: Option<crate::document::DocumentV>, errors: Seq<Seq<char>>, hints: Seq<
        Seq<char>,
    > },
}

/// What composing a set of subgraphs yields, as a function of the input:
/// sort by name; derive one token per subgraph, any failure aborting with
/// the token errors and no schema; otherwise install the bootstrap and fold
/// every subgraph in.
pub open spec fn merge_spec(input: Seq<crate::document::SubgraphV>) -> MergeResultV {
    let sorted = crate::order::sort_by_name(input);
    let errs = token_errors_v(sorted);
    if errs.len() > 0 {
        MergeResultV::Failure { schema: None, errors: errs, hints: Seq::empty() }
    } else {
        let toks = tokens_of_v(sorted);
        let d0 = crate::bootstrap::with_core_feature_join_v(
            crate::bootstrap::with_core_feature_link_v(crate::bootstrap::empty_document_v()),
            sorted,
            toks,
        );
        let (doc, hints) = merge_all_v(d0, Seq::empty(), sorted, toks);
        MergeResultV::Success { schema: doc, hints: hints }
    }
}

/// A composed supergraph document with the non-fatal hints gathered on the
/// way.
pub struct MergeSuccess {
    pub schema: crate::document::Document,
    pub composition_hints: Vec<String>,
}

/// A failed composition: the fatal errors, the hints, and the partial
/// schema when merging got far enough to build one.
pub struct MergeFailure {
    pub schema: Option<crate::document::Document>,
    pub errors: Vec<String>,
    pub composition_hints: Vec<String>,
}

/// The outcome a merge call returned, as a value of the functional model.
pub open spec fn merge_result_v(r: Result<MergeSuccess, MergeFailure>) -> MergeResultV {
    match r {
        Ok(s) => MergeResultV::Success {
            schema: s.schema.deep_view(),
            hints: s.composition_hints.deep_view(),
        },
        Err(f) => MergeResultV::Failure {
            schema: f.schema.deep_view(),
            errors: f.errors.deep_view(),
            hints: f.composition_hints.deep_view(),
        },
    }
}

/// Sorted subgraphs are the given subgraphs: well-formedness carries over.
proof fn lemma_sort_preserves_wf(s: Seq<crate::document::SubgraphV>)
    requires
        subgraphs_wf(s),
    ensures
        subgraphs_wf(crate::order::sort_by_name(s)),
{
    broadcast use vstd::seq_lib::group_to_multiset_ensures;

    crate::order::lemma_sort_by_name_multiset(s);
    let sorted = crate::order::sort_by_name(s);
    assert forall|k: int| 0 <= k < sorted.len() implies subgraph_doc_wf(
        (#[trigger] sorted[k]).schema,
    ) by {
        assert(sorted.contains(sorted[k]));
        assert(sorted.to_multiset().contains(sorted[k]));
        assert(s.to_multiset().contains(sorted[k]));
        assert(s.contains(sorted[k]));
        let j = choose|j: int| 0 <= j < s.len() && s[j] == sorted[k];
        assert(subgraph_doc_wf(s[j].schema));
    }
}

impl Merger {
    /// Composes the subgraphs into one supergraph document.
    ///
    /// The result is a function of the input set alone: the subgraphs are
    /// stable-sorted by name first, so the caller's ordering does not show
    /// in the output.
    #[verifier::loop_isolation(false)]
    pub fn merge(&mut self, subgraphs: &Vec<crate::document::Subgraph>) -> (r: Result<
        MergeSuccess,
        MergeFailure,
    >)
        requires
            subgraphs_wf(subgraphs.deep_view()),
            old(self).errors.deep_view() == Seq::<Seq<char>>::empty(),
            old(self).composition_hints.deep_view() == Seq::<Seq<char>>::empty(),
        ensures
            merge_result_v(r) == merge_spec(subgraphs.deep_view()),
    {
        proof {
            lemma_sort_preserves_wf(subgraphs.deep_view());
        }
        let sorted = crate::order::sort_subgraphs(subgraphs);
        let ghost sorted_v = sorted.deep_view();
        let mut tokens: Vec<String> = Vec::new();
        let mut i: usize = 0;
        proof {
            assert(self.errors.deep_view() =~= token_errors_v(sorted_v.take(0)));
            assert(tokens.deep_view() =~= tokens_of_v(sorted_v.take(0)));
        }
        while i < sorted.len()
            invariant
                0 <= i <= sorted.len(),
                self.errors.deep_view() == token_errors_v(sorted_v.take(i as int)),
                self.composition_hints.deep_view() == Seq::<Seq<char>>::empty(),
                self.errors.len() == 0 ==> (tokens.len() == i && tokens.deep_view()
                    == tokens_of_v(sorted_v.take(i as int))),
            decreases sorted.len() - i,
        {
            proof {
                assert(sorted_v.take(i + 1).drop_last() =~= sorted_v.take(i as int));
                assert(sorted_v.take(i + 1).last() == sorted_v[i as int]);
            }
            let s: &crate::document::Subgraph = sorted[i];
            let ghost errs_before = self.errors.deep_view();
            let ghost toks_before = tokens.deep_view();
            match crate::token::derive_token(s.name.as_str()) {
                Some(t) => {
                    let ghost tv = t@;
                    proof {
                        assert(s.deep_view() == sorted_v[i as int]);
                        assert(crate::token::token_of(sorted_v[i as int].name) == Some(tv));
                    }
                    let ghost toks_pre = tokens.deep_view();
                    tokens.push(t);
                    proof {
                        assert(self.errors.deep_view() =~= token_errors_v(sorted_v.take(i + 1)));
                        if self.errors.len() == 0 {
                            assert(toks_pre == tokens_of_v(sorted_v.take(i as int)));
                            assert(tokens.deep_view().len() == i + 1);
                            assert forall|k: int| 0 <= k < i + 1 implies tokens.deep_view()[k]
                                == tokens_of_v(sorted_v.take(i + 1))[k] by {
                                assert(sorted_v.take(i + 1)[k] == sorted_v[k]);
                                if k < i {
                                    assert(tokens.deep_view()[k] == toks_pre[k]);
                                    assert(toks_pre[k] == tokens_of_v(sorted_v.take(i as int))[k]);
                                    assert(sorted_v.take(i as int)[k] == sorted_v[k]);
                                } else {
                                    assert(tokens.deep_view()[k] == tv);
                                }
                            }
                            assert(tokens.deep_view() =~= tokens_of_v(sorted_v.take(i + 1)));
                        }
                    }
                },
                None => {
                    self.errors.push(
                        "Subgraph name couldn't be transformed into valid GraphQL name".to_owned(),
                    );
                    proof {
                        assert(self.errors.deep_view() =~= errs_before.push(token_error_msg()));
                        assert(self.errors.deep_view() =~= token_errors_v(sorted_v.take(i + 1)));
                    }
                },
            }
            i = i + 1;
        }
        proof {
            assert(sorted_v.take(sorted.len() as int) =~= sorted_v);
        }
        if self.errors.len() > 0 {
            let failure = MergeFailure {
                schema: None,
                errors: crate::document::clone_string_vec(&self.errors),
                composition_hints: crate::document::clone_string_vec(&self.composition_hints),
            };
            proof {
                assert(merge_result_v(Err(failure)) == merge_spec(subgraphs.deep_view()));
            }
            return Err(failure);
        }
        proof {
            lemma_token_errors_empty(sorted_v);
        }
        let mut supergraph = crate::bootstrap::new_supergraph();
        crate::bootstrap::add_core_feature_link(&mut supergraph);
        crate::bootstrap::add_core_feature_join(&mut supergraph, &sorted, &tokens);
        let ghost d0 = supergraph.deep_view();
        let ghost toks_v = tokens.deep_view();
        let mut j: usize = 0;
        proof {
            assert(sorted_v.skip(0) =~= sorted_v);
            assert(toks_v.skip(0) =~= toks_v);
        }
        while j < sorted.len()
            invariant
                0 <= j <= sorted.len(),
                self.errors.deep_view() == Seq::<Seq<char>>::empty(),
                tokens.len() == sorted.len(),
                tokens.deep_view() == toks_v,
                merge_all_v(d0, Seq::empty(), sorted_v, toks_v) == merge_all_v(
                    supergraph.deep_view(),
                    self.composition_hints.deep_view(),
                    sorted_v.skip(j as int),
                    toks_v.skip(j as int),
                ),
            decreases sorted.len() - j,
        {
            proof {
                assert(sorted_v.skip(j as int)[0] == sorted_v[j as int]);
                assert(sorted_v.skip(j as int).drop_first() =~= sorted_v.skip(j + 1));
                assert(toks_v.skip(j as int)[0] == toks_v[j as int]);
                assert(toks_v.skip(j as int).drop_first() =~= toks_v.skip(j + 1));
            }
            let sub: &crate::document::Subgraph = sorted[j];
            let token = &tokens[j];
            proof {
                assert(sub.deep_view() == sorted_v[j as int]);
                assert(token@ == toks_v[j as int]);
                assert(subgraph_doc_wf(sorted_v[j as int].schema));
            }
            let ghost doc_before = supergraph.deep_view();
            let ghost hints_before = self.composition_hints.deep_view();
            self.merge_schema(&mut supergraph, sub);
            let ghost doc1 = supergraph.deep_view();
            self.merge_subgraph_types(&mut supergraph.types, token, &sub.schema.types);
            merge_subgraph_directives(
                &mut supergraph.directive_definitions,
                &sub.schema.directive_definitions,
            );
            proof {
                let (spec_doc1, spec_h1) = merge_schema_v(
                    doc_before,
                    hints_before,
                    sorted_v[j as int].schema,
                );
                assert(doc1 == spec_doc1);
                let (spec_types2, spec_h2) = merge_types_v(
                    spec_doc1.types,
                    spec_h1,
                    toks_v[j as int],
                    sorted_v[j as int].schema.types,
                );
                let spec_defs3 = merge_directives_v(
                    spec_doc1.directive_definitions,
                    sorted_v[j as int].schema.directive_definitions,
                );
                assert(supergraph.deep_view() =~~= (crate::document::DocumentV {
                    types: spec_types2,
                    directive_definitions: spec_defs3,
                    ..spec_doc1
                }));
                assert(self.composition_hints.deep_view() == spec_h2);
                assert(merge_all_v(
                    doc_before,
                    hints_before,
                    sorted_v.skip(j as int),
                    toks_v.skip(j as int),
                ) == merge_all_v(
                    supergraph.deep_view(),
                    self.composition_hints.deep_view(),
                    sorted_v.skip(j + 1),
                    toks_v.skip(j + 1),
                ));
            }
            j = j + 1;
        }
        proof {
            assert(sorted_v.skip(sorted.len() as int) =~= Seq::<
                crate::document::SubgraphV,
            >::empty());
            assert(toks_v.skip(sorted.len() as int) =~= Seq::<Seq<char>>::empty());
        }
        if self.errors.len() == 0 {
            let success = MergeSuccess {
                schema: supergraph,
                composition_hints: crate::document::clone_string_vec(&self.composition_hints),
            };
            proof {
                assert(merge_result_v(Ok(success)) == merge_spec(subgraphs.deep_view()));
            }
            Ok(success)
        } else {
            let failure = MergeFailure {
                schema: Some(supergraph),
                errors: crate::document::clone_string_vec(&self.errors),
                composition_hints: crate::document::clone_string_vec(&self.composition_hints),
            };
            proof {
                assert(false);
            }
            Err(failure)
        }
    }
}

/// Composes the subgraphs into one supergraph schema annotated with the
/// `join` spec directives, or reports why composition is unusable.
pub fn merge_subgraphs(subgraphs: &Vec<crate::document::Subgraph>) -> (r: Result<
    MergeSuccess,
    MergeFailure,
>)
    requires
        subgraphs_wf(subgraphs.deep_view()),
    ensures
        merge_result_v(r) == merge_spec(subgraphs.deep_view()),
{
    let mut merger = Merger::new();
    merger.merge(subgraphs)
}

} // verus!
