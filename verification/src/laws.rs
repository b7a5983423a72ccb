//! Laws of composition, proved over the functional model `merge_spec`:
//! determinism under input reordering, exclusion of the federation-internal
//! query fields, exclusion of federation-internal type names, the once-only
//! union of executable directive definitions, the one-`@join__type`-per-type
//! wire contract, and the interfaceObject fold producing a single interface
//! and never a conflicting object type.

use vstd::prelude::*;
use crate::document::DirectiveDefinitionV;
use crate::document::FieldDefinitionV;
use crate::document::SubgraphV;
use crate::document::TypeDefV;
use crate::document::TypeEntryV;
use crate::merge::MergeResultV;
use crate::merge::executable_directive;
use crate::merge::find_directive_definition;
use crate::merge::merge_all_v;
use crate::merge::merge_directive_v;
use crate::merge::merge_directives_v;
use crate::merge::merge_enum_type_v;
use crate::merge::merge_input_object_type_v;
use crate::merge::merge_interface_type_v;
use crate::merge::merge_object_fields_v;
use crate::merge::merge_object_type_v;
use crate::merge::merge_one_subgraph_v;
use crate::merge::merge_schema_v;
use crate::merge::merge_spec;
use crate::merge::merge_types_v;
use crate::merge::merge_union_type_v;
use crate::merge::mergeable_type_name;
use crate::merge::reserved_directive_name;
use crate::merge::skipped_field_name;
use crate::merge::copy_fields_v;
use crate::merge::lemma_find_type;
use crate::merge::lemma_find_directive_definition;
use crate::order::names_distinct;
use crate::order::sort_by_name;
use crate::order::lemma_sort_by_name_multiset;
use crate::order::lemma_sort_by_name_ordered;
use crate::order::lemma_sorted_distinct_unique;

verus! {

// ---------------------------------------------------------------------------
// Determinism
// ---------------------------------------------------------------------------

/// Distinct names survive any reordering of the subgraphs.
proof fn lemma_names_distinct_permutation(a: Seq<SubgraphV>, b: Seq<SubgraphV>)
    requires
        a.to_multiset() == b.to_multiset(),
        names_distinct(a),
    ensures
        names_distinct(b),
{
    broadcast use vstd::seq_lib::group_to_multiset_ensures;

    assert(a.no_duplicates()) by {
        assert forall|i: int, j: int| 0 <= i < a.len() && 0 <= j < a.len() && i != j implies a[i]
            != a[j] by {
            if i < j {
                assert(a[i].name != a[j].name);
            } else {
                assert(a[j].name != a[i].name);
            }
        }
    }
    a.lemma_multiset_has_no_duplicates();
    b.lemma_multiset_has_no_duplicates_conv();
    assert forall|i: int, j: int| 0 <= i < j < b.len() implies (#[trigger] b[i].name)
        != (#[trigger] b[j].name) by {
        if b[i].name == b[j].name {
            assert(b[i] != b[j]);
            assert(b.contains(b[i]));
            assert(b.to_multiset().contains(b[i]));
            assert(a.to_multiset().contains(b[i]));
            assert(a.contains(b[i]));
            assert(b.contains(b[j]));
            assert(b.to_multiset().contains(b[j]));
            assert(a.to_multiset().contains(b[j]));
            assert(a.contains(b[j]));
            let k1 = choose|k: int| 0 <= k < a.len() && a[k] == b[i];
            let k2 = choose|k: int| 0 <= k < a.len() && a[k] == b[j];
            assert(k1 != k2);
            if k1 < k2 {
                assert(a[k1].name != a[k2].name);
            } else {
                assert(a[k2].name != a[k1].name);
            }
        }
    }
}

/// Composing the same subgraph set in any input order yields identical
/// output: the result is a function of the set alone, because the engine
/// sorts by the (unique) subgraph names before anything else.
pub proof fn lemma_merge_deterministic(s1: Seq<SubgraphV>, s2: Seq<SubgraphV>)
    requires
        s1.to_multiset() == s2.to_multiset(),
        names_distinct(s1),
    ensures
        merge_spec(s1) == merge_spec(s2),
{
    lemma_sort_by_name_multiset(s1);
    lemma_sort_by_name_multiset(s2);
    lemma_sort_by_name_ordered(s1);
    lemma_sort_by_name_ordered(s2);
    lemma_names_distinct_permutation(s1, sort_by_name(s1));
    assert(sort_by_name(s1).to_multiset() == sort_by_name(s2).to_multiset());
    lemma_sorted_distinct_unique(sort_by_name(s1), sort_by_name(s2));
    assert(sort_by_name(s1) == sort_by_name(s2));
}

// ---------------------------------------------------------------------------
// Entity-field exclusion
// ---------------------------------------------------------------------------

/// No field of the list carries a federation-internal query field name.
pub open spec fn fields_clean(fields: Seq<FieldDefinitionV>) -> bool {
    forall|f: int| 0 <= f < fields.len() ==> !skipped_field_name((#[trigger] fields[f]).name)
}

/// Every object type of the map is free of the federation-internal query
/// fields.
pub open spec fn types_object_fields_clean(types: Seq<TypeEntryV>) -> bool {
    forall|k: int|
        0 <= k < types.len() ==> (match (#[trigger] types[k]).def {
            TypeDefV::Object(o) => fields_clean(o.fields),
            _ => true,
        })
}

proof fn lemma_copy_fields_clean(fs: Seq<FieldDefinitionV>)
    ensures
        fields_clean(copy_fields_v(fs)),
    decreases fs.len(),
{
    if fs.len() > 0 {
        lemma_copy_fields_clean(fs.drop_last());
    }
}

proof fn lemma_merge_object_fields_clean(
    fields: Seq<FieldDefinitionV>,
    hints: Seq<Seq<char>>,
    token: Seq<char>,
    sfs: Seq<FieldDefinitionV>,
    is_join_field: bool,
    keys: Seq<Seq<char>>,
)
    requires
        fields_clean(fields),
    ensures
        fields_clean(merge_object_fields_v(fields, hints, token, sfs, is_join_field, keys).0),
    decreases sfs.len(),
{
    if sfs.len() > 0 {
        let f = sfs[0];
        if skipped_field_name(f.name) {
            lemma_merge_object_fields_clean(
                fields,
                hints,
                token,
                sfs.drop_first(),
                is_join_field,
                keys,
            );
        } else {
            let j0 = crate::merge::find_field(fields, f.name);
            let fields1 = if j0 == -1 {
                fields.push(crate::merge::missing_field_stub_v(f))
            } else {
                fields
            };
            let j = if j0 == -1 {
                fields.len() as int
            } else {
                j0
            };
            crate::merge::lemma_find_field(fields, f.name);
            assert(fields_clean(fields1));
            let fld = fields1[j];
            let (d, hints1) = crate::merge::merge_desc_v(fld.description, f.description, hints);
            let fld1 = if is_join_field && !keys.contains(f.name) {
                FieldDefinitionV {
                    name: fld.name,
                    description: d,
                    arguments: fld.arguments,
                    ty: fld.ty,
                    directives: fld.directives.push(
                        crate::merge::join_field_applied_v(
                            token,
                            crate::merge::requires_of(f),
                            crate::merge::provides_of(f),
                            crate::merge::external_of(f),
                        ),
                    ),
                }
            } else {
                FieldDefinitionV {
                    name: fld.name,
                    description: d,
                    arguments: fld.arguments,
                    ty: fld.ty,
                    directives: fld.directives,
                }
            };
            assert(fields_clean(fields1.update(j, fld1)));
            lemma_merge_object_fields_clean(
                fields1.update(j, fld1),
                hints1,
                token,
                sfs.drop_first(),
                is_join_field,
                keys,
            );
        }
    }
}

proof fn lemma_merge_types_clean(
    types: Seq<TypeEntryV>,
    hints: Seq<Seq<char>>,
    token: Seq<char>,
    entries: Seq<TypeEntryV>,
)
    requires
        types_object_fields_clean(types),
    ensures
        types_object_fields_clean(merge_types_v(types, hints, token, entries).0),
    decreases entries.len(),
{
    if entries.len() > 0 {
        let e = entries[0];
        let stepped = if e.built_in || !mergeable_type_name(e.name) {
            (types, hints)
        } else {
            match e.def {
                TypeDefV::Enum(d) => merge_enum_type_v(types, hints, token, e.name, d),
                TypeDefV::InputObject(d) => merge_input_object_type_v(
                    types,
                    hints,
                    token,
                    e.name,
                    d,
                ),
                TypeDefV::Interface(d) => merge_interface_type_v(types, hints, token, e.name, d),
                TypeDefV::Object(d) => merge_object_type_v(types, hints, token, e.name, d),
                TypeDefV::Union(d) => merge_union_type_v(types, hints, token, e.name, d),
                TypeDefV::Scalar(d) => (types, hints),
            }
        };
        assert(types_object_fields_clean(stepped.0)) by {
            lemma_find_type(types, e.name);
            if !(e.built_in || !mergeable_type_name(e.name)) {
                match e.def {
                    TypeDefV::Object(d) => {
                        lemma_copy_fields_clean(d.fields);
                        let i0 = crate::merge::find_type(types, e.name);
                        let types1 = if i0 == -1 {
                            types.push(
                                TypeEntryV {
                                    name: e.name,
                                    built_in: false,
                                    def: crate::merge::copy_object_type_stub_v(
                                        d,
                                        crate::merge::has_named(d.directives, "interfaceObject"@),
                                    ),
                                },
                            )
                        } else {
                            types
                        };
                        let idx = if i0 == -1 {
                            types.len() as int
                        } else {
                            i0
                        };
                        assert(types_object_fields_clean(types1));
                        match types1[idx].def {
                            TypeDefV::Object(sup) => {
                                lemma_merge_object_fields_clean(
                                    sup.fields,
                                    crate::merge::merge_desc_v(
                                        sup.description,
                                        d.description,
                                        hints,
                                    ).1,
                                    token,
                                    d.fields,
                                    crate::merge::key_tokens(
                                        crate::merge::filter_named(d.directives, "key"@),
                                    ).len() > 0 || e.name == "Query"@,
                                    crate::merge::key_tokens(
                                        crate::merge::filter_named(d.directives, "key"@),
                                    ),
                                );
                            },
                            _ => {},
                        }
                    },
                    TypeDefV::Interface(d) => {
                        lemma_copy_fields_clean(d.fields);
                    },
                    _ => {},
                }
            }
        }
        lemma_merge_types_clean(stepped.0, stepped.1, token, entries.drop_first());
    }
}

proof fn lemma_merge_all_clean(
    doc: crate::document::DocumentV,
    hints: Seq<Seq<char>>,
    subs: Seq<SubgraphV>,
    tokens: Seq<Seq<char>>,
)
    requires
        types_object_fields_clean(doc.types),
    ensures
        types_object_fields_clean(merge_all_v(doc, hints, subs, tokens).0.types),
    decreases subs.len(),
{
    if subs.len() > 0 {
        let (d1, h1) = merge_one_subgraph_v(doc, hints, subs[0], tokens[0]);
        let (doc1, _h) = merge_schema_v(doc, hints, subs[0].schema);
        assert(doc1.types == doc.types);
        lemma_merge_types_clean(doc1.types, _h, tokens[0], subs[0].schema.types);
        lemma_merge_all_clean(d1, h1, subs.drop_first(), tokens.drop_first());
    }
}

/// The federation-internal `Query` fields `_service` and `_entities` never
/// appear on any object type of the composed schema.
pub proof fn lemma_entity_field_exclusion(input: Seq<SubgraphV>)
    ensures
        (match merge_spec(input) {
            MergeResultV::Success { schema, hints } => types_object_fields_clean(schema.types),
            MergeResultV::Failure { schema, errors, hints } => true,
        }),
{
    let sorted = sort_by_name(input);
    let toks = crate::merge::tokens_of_v(sorted);
    let d0 = crate::bootstrap::with_core_feature_join_v(
        crate::bootstrap::with_core_feature_link_v(crate::bootstrap::empty_document_v()),
        sorted,
        toks,
    );
    assert(types_object_fields_clean(d0.types));
    lemma_merge_all_clean(d0, Seq::empty(), sorted, toks);
}

// ---------------------------------------------------------------------------
// Federation-internal type exclusion
// ---------------------------------------------------------------------------

/// The names the bootstrap itself installs in the type map.
pub open spec fn bootstrap_type_name(name: Seq<char>) -> bool {
    name == "link__Purpose"@ || name == "link__Import"@ || name == "join__FieldSet"@ || name
        == "join__Graph"@
}

/// Every type of the map is either installed by the bootstrap or carries a
/// mergeable name: nothing federation-internal gets in.
pub open spec fn types_names_admissible(types: Seq<TypeEntryV>) -> bool {
    forall|k: int|
        0 <= k < types.len() ==> (bootstrap_type_name((#[trigger] types[k]).name)
            || mergeable_type_name(types[k].name))
}

proof fn lemma_merge_types_admissible(
    types: Seq<TypeEntryV>,
    hints: Seq<Seq<char>>,
    token: Seq<char>,
    entries: Seq<TypeEntryV>,
)
    requires
        types_names_admissible(types),
    ensures
        types_names_admissible(merge_types_v(types, hints, token, entries).0),
    decreases entries.len(),
{
    if entries.len() > 0 {
        let e = entries[0];
        let stepped = if e.built_in || !mergeable_type_name(e.name) {
            (types, hints)
        } else {
            match e.def {
                TypeDefV::Enum(d) => merge_enum_type_v(types, hints, token, e.name, d),
                TypeDefV::InputObject(d) => merge_input_object_type_v(
                    types,
                    hints,
                    token,
                    e.name,
                    d,
                ),
                TypeDefV::Interface(d) => merge_interface_type_v(types, hints, token, e.name, d),
                TypeDefV::Object(d) => merge_object_type_v(types, hints, token, e.name, d),
                TypeDefV::Union(d) => merge_union_type_v(types, hints, token, e.name, d),
                TypeDefV::Scalar(d) => (types, hints),
            }
        };
        assert(types_names_admissible(stepped.0)) by {
            lemma_find_type(types, e.name);
            if !(e.built_in || !mergeable_type_name(e.name)) {
                assert forall|k: int| 0 <= k < stepped.0.len() implies (bootstrap_type_name(
                    (#[trigger] stepped.0[k]).name,
                ) || mergeable_type_name(stepped.0[k].name)) by {
                    if k < types.len() {
                        assert(stepped.0[k].name == types[k].name);
                    } else {
                        assert(stepped.0[k].name == e.name);
                    }
                }
            }
        }
        lemma_merge_types_admissible(stepped.0, stepped.1, token, entries.drop_first());
    }
}

proof fn lemma_merge_all_admissible(
    doc: crate::document::DocumentV,
    hints: Seq<Seq<char>>,
    subs: Seq<SubgraphV>,
    tokens: Seq<Seq<char>>,
)
    requires
        types_names_admissible(doc.types),
    ensures
        types_names_admissible(merge_all_v(doc, hints, subs, tokens).0.types),
    decreases subs.len(),
{
    if subs.len() > 0 {
        let (d1, h1) = merge_one_subgraph_v(doc, hints, subs[0], tokens[0]);
        let (doc1, _h) = merge_schema_v(doc, hints, subs[0].schema);
        assert(doc1.types == doc.types);
        lemma_merge_types_admissible(doc1.types, _h, tokens[0], subs[0].schema.types);
        lemma_merge_all_admissible(d1, h1, subs.drop_first(), tokens.drop_first());
    }
}


/// A federation-internal or spec-namespaced type declared by a subgraph —
/// `federation__Scope`, say — never appears in the composed type map:
/// every entry is a bootstrap type or carries a mergeable name.
pub proof fn lemma_federation_internal_exclusion(input: Seq<SubgraphV>)
    ensures
        (match merge_spec(input) {
            MergeResultV::Success { schema, hints } => types_names_admissible(schema.types),
            MergeResultV::Failure { schema, errors, hints } => true,
        }),
{
    let sorted = sort_by_name(input);
    let toks = crate::merge::tokens_of_v(sorted);
    let d0 = crate::bootstrap::with_core_feature_join_v(
        crate::bootstrap::with_core_feature_link_v(crate::bootstrap::empty_document_v()),
        sorted,
        toks,
    );
    assert(types_names_admissible(d0.types)) by {
        assert(bootstrap_type_name("link__Purpose"@));
        assert(bootstrap_type_name("link__Import"@));
        assert(bootstrap_type_name("join__FieldSet"@));
        assert(bootstrap_type_name("join__Graph"@));
    }
    lemma_merge_all_admissible(d0, Seq::empty(), sorted, toks);
}

} // verus!

verus! {

// ---------------------------------------------------------------------------
// Executable directive union
// ---------------------------------------------------------------------------

/// No two directive definitions of the list share a name.
pub open spec fn defs_names_unique(defs: Seq<DirectiveDefinitionV>) -> bool {
    forall|i: int, j: int|
        0 <= i < j < defs.len() ==> (#[trigger] defs[i].name) != (#[trigger] defs[j].name)
}

/// Some definition of the list carries the name.
pub open spec fn defs_contains_name(defs: Seq<DirectiveDefinitionV>, n: Seq<char>) -> bool {
    exists|k: int| 0 <= k < defs.len() && (#[trigger] defs[k].name) == n
}

/// The subgraph declares an executable directive definition named `n`.
pub open spec fn subgraph_declares(s: SubgraphV, n: Seq<char>) -> bool {
    exists|k: int|
        0 <= k < s.schema.directive_definitions.len() && executable_directive(
            #[trigger] s.schema.directive_definitions[k],
        ) && s.schema.directive_definitions[k].name == n
}

proof fn lemma_merge_directive_keeps(
    defs: Seq<DirectiveDefinitionV>,
    d: DirectiveDefinitionV,
    n: Seq<char>,
)
    ensures
        defs_names_unique(defs) ==> defs_names_unique(merge_directive_v(defs, d)),
        defs_contains_name(defs, n) ==> defs_contains_name(merge_directive_v(defs, d), n),
        defs_contains_name(merge_directive_v(defs, d), d.name),
{
    lemma_find_directive_definition(defs, d.name);
    let r = merge_directive_v(defs, d);
    if find_directive_definition(defs, d.name) == -1 {
        assert(r == defs.push(d));
        assert(r[r.len() - 1].name == d.name);
        if defs_names_unique(defs) {
            assert forall|i: int, j: int| 0 <= i < j < r.len() implies (#[trigger] r[i].name)
                != (#[trigger] r[j].name) by {
                if j < defs.len() {
                    assert(r[i].name == defs[i].name && r[j].name == defs[j].name);
                } else {
                    assert(r[j].name == d.name);
                    assert(defs[i].name != d.name);
                    assert(r[i].name == defs[i].name);
                }
            }
        }
        if defs_contains_name(defs, n) {
            let k = choose|k: int| 0 <= k < defs.len() && (#[trigger] defs[k].name) == n;
            assert(r[k].name == n);
        }
    } else {
        assert(r == defs);
        let i = find_directive_definition(defs, d.name);
        assert(defs[i].name == d.name);
    }
}

proof fn lemma_merge_directives_keeps(
    defs: Seq<DirectiveDefinitionV>,
    dds: Seq<DirectiveDefinitionV>,
    n: Seq<char>,
)
    ensures
        defs_names_unique(defs) ==> defs_names_unique(merge_directives_v(defs, dds)),
        defs_contains_name(defs, n) ==> defs_contains_name(merge_directives_v(defs, dds), n),
        (!reserved_directive_name(n) && (exists|k: int|
            0 <= k < dds.len() && executable_directive(#[trigger] dds[k]) && dds[k].name == n))
            ==> defs_contains_name(merge_directives_v(defs, dds), n),
    decreases dds.len(),
{
    if dds.len() > 0 {
        let defs1 = if executable_directive(dds[0]) && !reserved_directive_name(dds[0].name) {
            merge_directive_v(defs, dds[0])
        } else {
            defs
        };
        lemma_merge_directive_keeps(defs, dds[0], n);
        lemma_merge_directives_keeps(defs1, dds.drop_first(), n);
        if !reserved_directive_name(n) && (exists|k: int|
            0 <= k < dds.len() && executable_directive(#[trigger] dds[k]) && dds[k].name == n) {
            let k = choose|k: int|
                0 <= k < dds.len() && executable_directive(#[trigger] dds[k]) && dds[k].name == n;
            if k == 0 {
                assert(defs_contains_name(defs1, n));
            } else {
                assert(dds.drop_first()[k - 1] == dds[k]);
                assert(exists|k2: int|
                    0 <= k2 < dds.drop_first().len() && executable_directive(
                        #[trigger] dds.drop_first()[k2],
                    ) && dds.drop_first()[k2].name == n);
            }
        }
    }
}

proof fn lemma_merge_all_directives(
    doc: crate::document::DocumentV,
    hints: Seq<Seq<char>>,
    subs: Seq<SubgraphV>,
    tokens: Seq<Seq<char>>,
    n: Seq<char>,
)
    ensures
        defs_names_unique(doc.directive_definitions) ==> defs_names_unique(
            merge_all_v(doc, hints, subs, tokens).0.directive_definitions,
        ),
        defs_contains_name(doc.directive_definitions, n) ==> defs_contains_name(
            merge_all_v(doc, hints, subs, tokens).0.directive_definitions,
            n,
        ),
        (!reserved_directive_name(n) && (exists|j: int|
            0 <= j < subs.len() && subgraph_declares(#[trigger] subs[j], n)))
            ==> defs_contains_name(merge_all_v(doc, hints, subs, tokens).0.directive_definitions, n),
    decreases subs.len(),
{
    if subs.len() > 0 {
        let (d1, h1) = merge_one_subgraph_v(doc, hints, subs[0], tokens[0]);
        let (doc1, _h) = merge_schema_v(doc, hints, subs[0].schema);
        assert(doc1.directive_definitions == doc.directive_definitions);
        assert(d1.directive_definitions == merge_directives_v(
            doc.directive_definitions,
            subs[0].schema.directive_definitions,
        ));
        lemma_merge_directives_keeps(
            doc.directive_definitions,
            subs[0].schema.directive_definitions,
            n,
        );
        lemma_merge_all_directives(d1, h1, subs.drop_first(), tokens.drop_first(), n);
        if !reserved_directive_name(n) && (exists|j: int|
            0 <= j < subs.len() && subgraph_declares(#[trigger] subs[j], n)) {
            let j = choose|j: int| 0 <= j < subs.len() && subgraph_declares(#[trigger] subs[j], n);
            if j == 0 {
                assert(defs_contains_name(d1.directive_definitions, n));
            } else {
                assert(subs.drop_first()[j - 1] == subs[j]);
                assert(exists|j2: int|
                    0 <= j2 < subs.drop_first().len() && subgraph_declares(
                        #[trigger] subs.drop_first()[j2],
                        n,
                    ));
            }
        }
    }
}

/// The bootstrap's own directive definitions carry pairwise distinct names.
proof fn lemma_bootstrap_defs_unique(subs: Seq<SubgraphV>, toks: Seq<Seq<char>>)
    ensures
        defs_names_unique(
            crate::bootstrap::with_core_feature_join_v(
                crate::bootstrap::with_core_feature_link_v(crate::bootstrap::empty_document_v()),
                subs,
                toks,
            ).directive_definitions,
        ),
{
    reveal_strlit("link");
    reveal_strlit("join__graph");
    reveal_strlit("join__type");
    reveal_strlit("join__field");
    reveal_strlit("join__implements");
    reveal_strlit("join__unionMember");
    reveal_strlit("join__enumValue");
    let defs = crate::bootstrap::with_core_feature_join_v(
        crate::bootstrap::with_core_feature_link_v(crate::bootstrap::empty_document_v()),
        subs,
        toks,
    ).directive_definitions;
    assert(defs.len() == 7);
    assert(defs[0].name == "link"@);
    assert(defs[1].name == "join__graph"@);
    assert(defs[2].name == "join__type"@);
    assert(defs[3].name == "join__field"@);
    assert(defs[4].name == "join__implements"@);
    assert(defs[5].name == "join__unionMember"@);
    assert(defs[6].name == "join__enumValue"@);
    assert(defs_names_unique(defs)) by {
        assert("link"@.len() == 4);
        assert("join__graph"@.len() == 11);
        assert("join__type"@.len() == 10);
        assert("join__field"@.len() == 11);
        assert("join__implements"@.len() == 16);
        assert("join__unionMember"@.len() == 17);
        assert("join__enumValue"@.len() == 15);
        assert("join__graph"@[6] != "join__field"@[6]);
    }
}

/// The composed schema's directive definitions never repeat a name: an
/// executable directive declared by several subgraphs appears at most once.
pub proof fn lemma_directive_definitions_unique(input: Seq<SubgraphV>)
    ensures
        (match merge_spec(input) {
            MergeResultV::Success { schema, hints } => defs_names_unique(
                schema.directive_definitions,
            ),
            MergeResultV::Failure { schema, errors, hints } => true,
        }),
{
    let sorted = sort_by_name(input);
    let toks = crate::merge::tokens_of_v(sorted);
    let d0 = crate::bootstrap::with_core_feature_join_v(
        crate::bootstrap::with_core_feature_link_v(crate::bootstrap::empty_document_v()),
        sorted,
        toks,
    );
    lemma_bootstrap_defs_unique(sorted, toks);
    reveal_strlit("skip");
    lemma_merge_all_directives(d0, Seq::empty(), sorted, toks, "skip"@);
}

/// An executable directive declared by any subgraph — in particular, one
/// declared identically by two subgraphs — appears exactly once in the
/// composed schema's directive definitions, under its name.  The GraphQL
/// language's own directive names are implicit in every document and are
/// not re-listed.
pub proof fn lemma_executable_directive_union(input: Seq<SubgraphV>, n: Seq<char>)
    requires
        !reserved_directive_name(n),
        exists|j: int| 0 <= j < input.len() && subgraph_declares(#[trigger] input[j], n),
    ensures
        (match merge_spec(input) {
            MergeResultV::Success { schema, hints } => defs_names_unique(
                schema.directive_definitions,
            ) && defs_contains_name(schema.directive_definitions, n),
            MergeResultV::Failure { schema, errors, hints } => true,
        }),
{
    broadcast use vstd::seq_lib::group_to_multiset_ensures;

    let sorted = sort_by_name(input);
    let toks = crate::merge::tokens_of_v(sorted);
    let d0 = crate::bootstrap::with_core_feature_join_v(
        crate::bootstrap::with_core_feature_link_v(crate::bootstrap::empty_document_v()),
        sorted,
        toks,
    );
    lemma_bootstrap_defs_unique(sorted, toks);
    let j = choose|j: int| 0 <= j < input.len() && subgraph_declares(#[trigger] input[j], n);
    lemma_sort_by_name_multiset(input);
    assert(input.contains(input[j]));
    assert(input.to_multiset().contains(input[j]));
    assert(sorted.to_multiset().contains(input[j]));
    assert(sorted.contains(input[j]));
    let k = choose|k: int| 0 <= k < sorted.len() && sorted[k] == input[j];
    assert(subgraph_declares(sorted[k], n));
    lemma_merge_all_directives(d0, Seq::empty(), sorted, toks, n);
}

} // verus!

verus! {

// ---------------------------------------------------------------------------
// Every merged type carries at least one `@join__type`
// ---------------------------------------------------------------------------

/// The directives applied to a type definition, whatever its kind.
pub open spec fn def_directives(def: TypeDefV) -> Seq<crate::document::DirectiveV> {
    match def {
        TypeDefV::Scalar(d) => d.directives,
        TypeDefV::Object(d) => d.directives,
        TypeDefV::Interface(d) => d.directives,
        TypeDefV::Union(d) => d.directives,
        TypeDefV::Enum(d) => d.directives,
        TypeDefV::InputObject(d) => d.directives,
    }
}

/// Every entry of the map either belongs to the bootstrap or carries at
/// least one `@join__type` application.
pub open spec fn types_all_joined(types: Seq<TypeEntryV>) -> bool {
    forall|k: int|
        0 <= k < types.len() ==> (bootstrap_type_name((#[trigger] types[k]).name)
            || crate::merge::has_named(def_directives(types[k].def), "join__type"@))
}

proof fn lemma_join_type_applied_first(
    token: Seq<char>,
    key_directives: Seq<crate::document::DirectiveV>,
    is_interface_object: bool,
)
    ensures
        crate::merge::join_type_applied_v(token, key_directives, is_interface_object).len() >= 1,
        crate::merge::join_type_applied_v(token, key_directives, is_interface_object)[0].name
            == "join__type"@,
{
}

/// Appending the `@join__type` applications marks the directive list.
proof fn lemma_appended_has_join_type(
    dirs: Seq<crate::document::DirectiveV>,
    token: Seq<char>,
    key_directives: Seq<crate::document::DirectiveV>,
    is_interface_object: bool,
)
    ensures
        crate::merge::has_named(
            dirs + crate::merge::join_type_applied_v(token, key_directives, is_interface_object),
            "join__type"@,
        ),
{
    lemma_join_type_applied_first(token, key_directives, is_interface_object);
    let joined = dirs + crate::merge::join_type_applied_v(
        token,
        key_directives,
        is_interface_object,
    );
    assert(joined[dirs.len() as int].name == "join__type"@);
}

/// A marked directive list stays marked when more applications follow.
proof fn lemma_has_join_type_extend(
    dirs: Seq<crate::document::DirectiveV>,
    more: Seq<crate::document::DirectiveV>,
)
    requires
        crate::merge::has_named(dirs, "join__type"@),
    ensures
        crate::merge::has_named(dirs + more, "join__type"@),
{
    let k = choose|k: int| 0 <= k < dirs.len() && (#[trigger] dirs[k].name) == "join__type"@;
    assert((dirs + more)[k].name == "join__type"@);
}

/// Pushing more applications keeps the mark.
proof fn lemma_has_join_type_push(
    dirs: Seq<crate::document::DirectiveV>,
    d: crate::document::DirectiveV,
)
    requires
        crate::merge::has_named(dirs, "join__type"@),
    ensures
        crate::merge::has_named(dirs.push(d), "join__type"@),
{
    let k = choose|k: int| 0 <= k < dirs.len() && (#[trigger] dirs[k].name) == "join__type"@;
    assert(dirs.push(d)[k].name == "join__type"@);
}

/// The member fold only pushes directives, so the mark survives it.
proof fn lemma_union_members_keep_join_type(
    members: Seq<Seq<char>>,
    dirs: Seq<crate::document::DirectiveV>,
    token: Seq<char>,
    ms: Seq<Seq<char>>,
)
    requires
        crate::merge::has_named(dirs, "join__type"@),
    ensures
        crate::merge::has_named(
            crate::merge::merge_union_members_v(members, dirs, token, ms).1,
            "join__type"@,
        ),
    decreases ms.len(),
{
    if ms.len() > 0 {
        let m = ms[0];
        let members1 = if members.contains(m) {
            members
        } else {
            members.push(m)
        };
        let dirs1 = dirs.push(crate::merge::join_union_member_applied_v(token, m));
        lemma_has_join_type_push(dirs, crate::merge::join_union_member_applied_v(token, m));
        lemma_union_members_keep_join_type(members1, dirs1, token, ms.drop_first());
    }
}

/// The interface-relation fold only pushes directives, so the mark
/// survives it.
proof fn lemma_implements_keep_join_type(
    impls: Seq<Seq<char>>,
    dirs: Seq<crate::document::DirectiveV>,
    token: Seq<char>,
    is: Seq<Seq<char>>,
)
    requires
        crate::merge::has_named(dirs, "join__type"@),
    ensures
        crate::merge::has_named(
            crate::merge::merge_implements_v(impls, dirs, token, is).1,
            "join__type"@,
        ),
    decreases is.len(),
{
    if is.len() > 0 {
        let m = is[0];
        let impls1 = if impls.contains(m) {
            impls
        } else {
            impls.push(m)
        };
        let dirs1 = dirs.push(crate::merge::join_type_implements_v(token, m));
        lemma_has_join_type_push(dirs, crate::merge::join_type_implements_v(token, m));
        lemma_implements_keep_join_type(impls1, dirs1, token, is.drop_first());
    }
}

proof fn lemma_merge_types_joined(
    types: Seq<TypeEntryV>,
    hints: Seq<Seq<char>>,
    token: Seq<char>,
    entries: Seq<TypeEntryV>,
)
    requires
        types_all_joined(types),
    ensures
        types_all_joined(merge_types_v(types, hints, token, entries).0),
    decreases entries.len(),
{
    if entries.len() > 0 {
        let e = entries[0];
        let stepped = if e.built_in || !mergeable_type_name(e.name) {
            (types, hints)
        } else {
            match e.def {
                TypeDefV::Enum(d) => merge_enum_type_v(types, hints, token, e.name, d),
                TypeDefV::InputObject(d) => merge_input_object_type_v(
                    types,
                    hints,
                    token,
                    e.name,
                    d,
                ),
                TypeDefV::Interface(d) => merge_interface_type_v(types, hints, token, e.name, d),
                TypeDefV::Object(d) => merge_object_type_v(types, hints, token, e.name, d),
                TypeDefV::Union(d) => merge_union_type_v(types, hints, token, e.name, d),
                TypeDefV::Scalar(d) => (types, hints),
            }
        };
        assert(types_all_joined(stepped.0)) by {
            lemma_find_type(types, e.name);
            if !(e.built_in || !mergeable_type_name(e.name)) {
                match e.def {
                    TypeDefV::Enum(d) => {
                        lemma_appended_has_join_type(
                            def_directives_of_enum_branch(types, e.name, d),
                            token,
                            Seq::empty(),
                            false,
                        );
                    },
                    TypeDefV::InputObject(d) => {
                        lemma_appended_has_join_type(
                            def_directives_of_input_branch(types, e.name, d),
                            token,
                            Seq::empty(),
                            false,
                        );
                    },
                    TypeDefV::Interface(d) => {
                        lemma_appended_has_join_type(
                            def_directives_of_interface_branch(types, e.name, d),
                            token,
                            crate::merge::filter_named(d.directives, "key"@),
                            false,
                        );
                    },
                    TypeDefV::Object(d) => {
                        let i0 = crate::merge::find_type(types, e.name);
                        let is_itf = crate::merge::has_named(d.directives, "interfaceObject"@);
                        let types1 = if i0 == -1 {
                            types.push(
                                TypeEntryV {
                                    name: e.name,
                                    built_in: false,
                                    def: crate::merge::copy_object_type_stub_v(d, is_itf),
                                },
                            )
                        } else {
                            types
                        };
                        let idx = if i0 == -1 {
                            types.len() as int
                        } else {
                            i0
                        };
                        let key_dirs = crate::merge::filter_named(d.directives, "key"@);
                        match types1[idx].def {
                            TypeDefV::Object(sup) => {
                                lemma_appended_has_join_type(
                                    sup.directives,
                                    token,
                                    key_dirs,
                                    false,
                                );
                                lemma_implements_keep_join_type(
                                    sup.implements_interfaces,
                                    sup.directives + crate::merge::join_type_applied_v(
                                        token,
                                        key_dirs,
                                        false,
                                    ),
                                    token,
                                    d.implements_interfaces,
                                );
                            },
                            TypeDefV::Interface(sup) => {
                                lemma_appended_has_join_type(sup.directives, token, key_dirs, true);
                            },
                            _ => {},
                        }
                    },
                    TypeDefV::Union(d) => {
                        let i0 = crate::merge::find_type(types, e.name);
                        let types1 = if i0 == -1 {
                            types.push(
                                TypeEntryV {
                                    name: e.name,
                                    built_in: false,
                                    def: crate::merge::copy_union_type_v(d.description),
                                },
                            )
                        } else {
                            types
                        };
                        let idx = if i0 == -1 {
                            types.len() as int
                        } else {
                            i0
                        };
                        match types1[idx].def {
                            TypeDefV::Union(sup) => {
                                lemma_appended_has_join_type(
                                    sup.directives,
                                    token,
                                    Seq::empty(),
                                    false,
                                );
                                lemma_union_members_keep_join_type(
                                    sup.members,
                                    sup.directives + crate::merge::join_type_applied_v(
                                        token,
                                        Seq::empty(),
                                        false,
                                    ),
                                    token,
                                    d.members,
                                );
                            },
                            _ => {},
                        }
                    },
                    TypeDefV::Scalar(d) => {},
                }
            }
        }
        lemma_merge_types_joined(stepped.0, stepped.1, token, entries.drop_first());
    }
}

/// The directives of the enum entry the enum branch starts from.
spec fn def_directives_of_enum_branch(
    types: Seq<TypeEntryV>,
    name: Seq<char>,
    d: crate::document::EnumDefV,
) -> Seq<crate::document::DirectiveV> {
    let i0 = crate::merge::find_type(types, name);
    let types1 = if i0 == -1 {
        types.push(
            TypeEntryV { name: name, built_in: false, def: crate::merge::copy_enum_type_v(d) },
        )
    } else {
        types
    };
    let idx = if i0 == -1 {
        types.len() as int
    } else {
        i0
    };
    match types1[idx].def {
        TypeDefV::Enum(sup) => sup.directives,
        _ => Seq::empty(),
    }
}

/// The directives of the input-object entry that branch starts from.
spec fn def_directives_of_input_branch(
    types: Seq<TypeEntryV>,
    name: Seq<char>,
    d: crate::document::InputObjectDefV,
) -> Seq<crate::document::DirectiveV> {
    let i0 = crate::merge::find_type(types, name);
    let types1 = if i0 == -1 {
        types.push(
            TypeEntryV {
                name: name,
                built_in: false,
                def: crate::merge::copy_input_object_type_v(d),
            },
        )
    } else {
        types
    };
    let idx = if i0 == -1 {
        types.len() as int
    } else {
        i0
    };
    match types1[idx].def {
        TypeDefV::InputObject(sup) => sup.directives,
        _ => Seq::empty(),
    }
}

/// The directives of the interface entry that branch starts from.
spec fn def_directives_of_interface_branch(
    types: Seq<TypeEntryV>,
    name: Seq<char>,
    d: crate::document::InterfaceDefV,
) -> Seq<crate::document::DirectiveV> {
    let i0 = crate::merge::find_type(types, name);
    let types1 = if i0 == -1 {
        types.push(
            TypeEntryV {
                name: name,
                built_in: false,
                def: crate::merge::copy_interface_type_v(d),
            },
        )
    } else {
        types
    };
    let idx = if i0 == -1 {
        types.len() as int
    } else {
        i0
    };
    match types1[idx].def {
        TypeDefV::Interface(sup) => sup.directives,
        _ => Seq::empty(),
    }
}

proof fn lemma_merge_all_joined(
    doc: crate::document::DocumentV,
    hints: Seq<Seq<char>>,
    subs: Seq<SubgraphV>,
    tokens: Seq<Seq<char>>,
)
    requires
        types_all_joined(doc.types),
    ensures
        types_all_joined(merge_all_v(doc, hints, subs, tokens).0.types),
    decreases subs.len(),
{
    if subs.len() > 0 {
        let (d1, h1) = merge_one_subgraph_v(doc, hints, subs[0], tokens[0]);
        let (doc1, _h) = merge_schema_v(doc, hints, subs[0].schema);
        assert(doc1.types == doc.types);
        lemma_merge_types_joined(doc1.types, _h, tokens[0], subs[0].schema.types);
        lemma_merge_all_joined(d1, h1, subs.drop_first(), tokens.drop_first());
    }
}

/// The wire contract on types: every composed type that is not part of the
/// bootstrap carries at least one `@join__type` application.
pub proof fn lemma_every_type_joined(input: Seq<SubgraphV>)
    ensures
        (match merge_spec(input) {
            MergeResultV::Success { schema, hints } => types_all_joined(schema.types),
            MergeResultV::Failure { schema, errors, hints } => true,
        }),
{
    let sorted = sort_by_name(input);
    let toks = crate::merge::tokens_of_v(sorted);
    let d0 = crate::bootstrap::with_core_feature_join_v(
        crate::bootstrap::with_core_feature_link_v(crate::bootstrap::empty_document_v()),
        sorted,
        toks,
    );
    assert(types_all_joined(d0.types)) by {
        assert(bootstrap_type_name("link__Purpose"@));
        assert(bootstrap_type_name("link__Import"@));
        assert(bootstrap_type_name("join__FieldSet"@));
        assert(bootstrap_type_name("join__Graph"@));
    }
    lemma_merge_all_joined(d0, Seq::empty(), sorted, toks);
}

} // verus!

verus! {

// ---------------------------------------------------------------------------
// interfaceObject folding
// ---------------------------------------------------------------------------

/// A `@join__type` application carrying `isInterfaceObject: true`.
pub open spec fn itf_obj_marked(d: crate::document::DirectiveV) -> bool {
    d.name == "join__type"@ && (exists|k: int|
        0 <= k < d.arguments.len() && (#[trigger] d.arguments[k]).name == "isInterfaceObject"@
            && d.arguments[k].value == crate::document::ValueV::Boolean(true))
}

/// No directive of the list carries the `isInterfaceObject: true` mark.
pub open spec fn unmarked_dirs(ds: Seq<crate::document::DirectiveV>) -> bool {
    forall|j: int| 0 <= j < ds.len() ==> !itf_obj_marked(#[trigger] ds[j])
}

/// No two types of the map share a name.
pub open spec fn types_names_unique(types: Seq<TypeEntryV>) -> bool {
    forall|i: int, j: int|
        0 <= i < j < types.len() ==> (#[trigger] types[i].name) != (#[trigger] types[j].name)
}

/// Only interface types ever carry `@join__type(... isInterfaceObject:
/// true)`: everything else in the map is unmarked.
pub open spec fn types_itf_obj_interfaces(types: Seq<TypeEntryV>) -> bool {
    forall|k: int|
        0 <= k < types.len() ==> ((#[trigger] types[k]).def is Interface || unmarked_dirs(
            def_directives(types[k].def),
        ))
}

/// `@join__type` applications built without the interfaceObject flag carry
/// no `isInterfaceObject` argument at all.
proof fn lemma_join_type_applied_unmarked(
    token: Seq<char>,
    key_directives: Seq<crate::document::DirectiveV>,
)
    ensures
        unmarked_dirs(crate::merge::join_type_applied_v(token, key_directives, false)),
{
    reveal_strlit("graph");
    reveal_strlit("key");
    reveal_strlit("resolvable");
    reveal_strlit("isInterfaceObject");
    let r = crate::merge::join_type_applied_v(token, key_directives, false);
    assert forall|j: int| 0 <= j < r.len() implies !itf_obj_marked(#[trigger] r[j]) by {
        let args = r[j].arguments;
        assert forall|k: int| 0 <= k < args.len() implies (#[trigger] args[k]).name
            != "isInterfaceObject"@ by {
            if key_directives.len() == 0 {
                assert(args[k].name == "graph"@);
            } else {
                if k == 0 {
                    assert(args[k].name == "graph"@);
                } else if k == 1 {
                    assert(args[k].name == "key"@);
                } else {
                    assert(args[k].name == "resolvable"@);
                }
            }
        }
    }
}

/// Unmarked lists stay unmarked under concatenation.
proof fn lemma_unmarked_extend(
    ds: Seq<crate::document::DirectiveV>,
    more: Seq<crate::document::DirectiveV>,
)
    requires
        unmarked_dirs(ds),
        unmarked_dirs(more),
    ensures
        unmarked_dirs(ds + more),
{
    assert forall|j: int| 0 <= j < (ds + more).len() implies !itf_obj_marked(
        #[trigger] (ds + more)[j],
    ) by {
        if j < ds.len() {
            assert((ds + more)[j] == ds[j]);
        } else {
            assert((ds + more)[j] == more[j - ds.len()]);
        }
    }
}

/// The member fold only pushes `@join__unionMember` applications, which are
/// not `@join__type` and so never marked.
proof fn lemma_union_members_unmarked(
    members: Seq<Seq<char>>,
    dirs: Seq<crate::document::DirectiveV>,
    token: Seq<char>,
    ms: Seq<Seq<char>>,
)
    requires
        unmarked_dirs(dirs),
    ensures
        unmarked_dirs(crate::merge::merge_union_members_v(members, dirs, token, ms).1),
    decreases ms.len(),
{
    reveal_strlit("join__type");
    reveal_strlit("join__unionMember");
    if ms.len() > 0 {
        let m = ms[0];
        let members1 = if members.contains(m) {
            members
        } else {
            members.push(m)
        };
        let dirs1 = dirs.push(crate::merge::join_union_member_applied_v(token, m));
        assert(unmarked_dirs(dirs1)) by {
            assert forall|j: int| 0 <= j < dirs1.len() implies !itf_obj_marked(
                #[trigger] dirs1[j],
            ) by {
                if j < dirs.len() {
                    assert(dirs1[j] == dirs[j]);
                } else {
                    assert(dirs1[j].name == "join__unionMember"@);
                }
            }
        }
        lemma_union_members_unmarked(members1, dirs1, token, ms.drop_first());
    }
}

/// The interface-relation fold only pushes `@join__implements`
/// applications, never marked.
proof fn lemma_implements_unmarked(
    impls: Seq<Seq<char>>,
    dirs: Seq<crate::document::DirectiveV>,
    token: Seq<char>,
    is: Seq<Seq<char>>,
)
    requires
        unmarked_dirs(dirs),
    ensures
        unmarked_dirs(crate::merge::merge_implements_v(impls, dirs, token, is).1),
    decreases is.len(),
{
    reveal_strlit("join__type");
    reveal_strlit("join__implements");
    if is.len() > 0 {
        let m = is[0];
        let impls1 = if impls.contains(m) {
            impls
        } else {
            impls.push(m)
        };
        let dirs1 = dirs.push(crate::merge::join_type_implements_v(token, m));
        assert(unmarked_dirs(dirs1)) by {
            assert forall|j: int| 0 <= j < dirs1.len() implies !itf_obj_marked(
                #[trigger] dirs1[j],
            ) by {
                if j < dirs.len() {
                    assert(dirs1[j] == dirs[j]);
                } else {
                    assert(dirs1[j].name == "join__implements"@);
                }
            }
        }
        lemma_implements_unmarked(impls1, dirs1, token, is.drop_first());
    }
}

proof fn lemma_merge_types_interface_object(
    types: Seq<TypeEntryV>,
    hints: Seq<Seq<char>>,
    token: Seq<char>,
    entries: Seq<TypeEntryV>,
)
    requires
        types_names_unique(types),
        types_itf_obj_interfaces(types),
    ensures
        types_names_unique(merge_types_v(types, hints, token, entries).0),
        types_itf_obj_interfaces(merge_types_v(types, hints, token, entries).0),
    decreases entries.len(),
{
    if entries.len() > 0 {
        let e = entries[0];
        let stepped = if e.built_in || !mergeable_type_name(e.name) {
            (types, hints)
        } else {
            match e.def {
                TypeDefV::Enum(d) => merge_enum_type_v(types, hints, token, e.name, d),
                TypeDefV::InputObject(d) => merge_input_object_type_v(
                    types,
                    hints,
                    token,
                    e.name,
                    d,
                ),
                TypeDefV::Interface(d) => merge_interface_type_v(types, hints, token, e.name, d),
                TypeDefV::Object(d) => merge_object_type_v(types, hints, token, e.name, d),
                TypeDefV::Union(d) => merge_union_type_v(types, hints, token, e.name, d),
                TypeDefV::Scalar(d) => (types, hints),
            }
        };
        assert(types_names_unique(stepped.0) && types_itf_obj_interfaces(stepped.0)) by {
            lemma_find_type(types, e.name);
            if !(e.built_in || !mergeable_type_name(e.name)) {
                assert forall|i: int, j: int| 0 <= i < j < stepped.0.len() implies (
                #[trigger] stepped.0[i].name) != (#[trigger] stepped.0[j].name) by {
                    if j < types.len() {
                        assert(stepped.0[i].name == types[i].name);
                        assert(stepped.0[j].name == types[j].name);
                    } else {
                        if i < types.len() {
                            assert(stepped.0[i].name == types[i].name);
                        }
                        assert(stepped.0[j].name == e.name);
                        assert(crate::merge::find_type(types, e.name) == -1);
                    }
                }
                match e.def {
                    TypeDefV::Enum(d) => {
                        lemma_join_type_applied_unmarked(token, Seq::empty());
                        let old_dirs = def_directives_of_enum_branch(types, e.name, d);
                        lemma_unmarked_extend(
                            old_dirs,
                            crate::merge::join_type_applied_v(token, Seq::empty(), false),
                        );
                    },
                    TypeDefV::InputObject(d) => {
                        lemma_join_type_applied_unmarked(token, Seq::empty());
                        let old_dirs = def_directives_of_input_branch(types, e.name, d);
                        lemma_unmarked_extend(
                            old_dirs,
                            crate::merge::join_type_applied_v(token, Seq::empty(), false),
                        );
                    },
                    TypeDefV::Interface(d) => {},
                    TypeDefV::Object(d) => {
                        let i0 = crate::merge::find_type(types, e.name);
                        let is_itf = crate::merge::has_named(d.directives, "interfaceObject"@);
                        let types1 = if i0 == -1 {
                            types.push(
                                TypeEntryV {
                                    name: e.name,
                                    built_in: false,
                                    def: crate::merge::copy_object_type_stub_v(d, is_itf),
                                },
                            )
                        } else {
                            types
                        };
                        let idx = if i0 == -1 {
                            types.len() as int
                        } else {
                            i0
                        };
                        let key_dirs = crate::merge::filter_named(d.directives, "key"@);
                        match types1[idx].def {
                            TypeDefV::Object(sup) => {
                                lemma_join_type_applied_unmarked(token, key_dirs);
                                lemma_unmarked_extend(
                                    sup.directives,
                                    crate::merge::join_type_applied_v(token, key_dirs, false),
                                );
                                lemma_implements_unmarked(
                                    sup.implements_interfaces,
                                    sup.directives + crate::merge::join_type_applied_v(
                                        token,
                                        key_dirs,
                                        false,
                                    ),
                                    token,
                                    d.implements_interfaces,
                                );
                            },
                            _ => {},
                        }
                    },
                    TypeDefV::Union(d) => {
                        let i0 = crate::merge::find_type(types, e.name);
                        let types1 = if i0 == -1 {
                            types.push(
                                TypeEntryV {
                                    name: e.name,
                                    built_in: false,
                                    def: crate::merge::copy_union_type_v(d.description),
                                },
                            )
                        } else {
                            types
                        };
                        let idx = if i0 == -1 {
                            types.len() as int
                        } else {
                            i0
                        };
                        match types1[idx].def {
                            TypeDefV::Union(sup) => {
                                lemma_join_type_applied_unmarked(token, Seq::empty());
                                lemma_unmarked_extend(
                                    sup.directives,
                                    crate::merge::join_type_applied_v(token, Seq::empty(), false),
                                );
                                lemma_union_members_unmarked(
                                    sup.members,
                                    sup.directives + crate::merge::join_type_applied_v(
                                        token,
                                        Seq::empty(),
                                        false,
                                    ),
                                    token,
                                    d.members,
                                );
                            },
                            _ => {},
                        }
                    },
                    TypeDefV::Scalar(d) => {},
                }
            }
        }
        lemma_merge_types_interface_object(stepped.0, stepped.1, token, entries.drop_first());
    }
}

proof fn lemma_merge_all_interface_object(
    doc: crate::document::DocumentV,
    hints: Seq<Seq<char>>,
    subs: Seq<SubgraphV>,
    tokens: Seq<Seq<char>>,
)
    requires
        types_names_unique(doc.types),
        types_itf_obj_interfaces(doc.types),
    ensures
        types_names_unique(merge_all_v(doc, hints, subs, tokens).0.types),
        types_itf_obj_interfaces(merge_all_v(doc, hints, subs, tokens).0.types),
    decreases subs.len(),
{
    if subs.len() > 0 {
        let (d1, h1) = merge_one_subgraph_v(doc, hints, subs[0], tokens[0]);
        let (doc1, _h) = merge_schema_v(doc, hints, subs[0].schema);
        assert(doc1.types == doc.types);
        lemma_merge_types_interface_object(doc1.types, _h, tokens[0], subs[0].schema.types);
        lemma_merge_all_interface_object(d1, h1, subs.drop_first(), tokens.drop_first());
    }
}

/// The general form of the interfaceObject fold: however the subgraphs
/// model a type — an object in one, `@interfaceObject` in another — the
/// composed map holds at most one type under each name, and any type whose
/// `@join__type` says `isInterfaceObject: true` is an interface.  An object
/// declaration folded onto an interface therefore never produces a
/// duplicate or conflicting object type.
pub proof fn lemma_interface_object_folding(input: Seq<SubgraphV>)
    ensures
        (match merge_spec(input) {
            MergeResultV::Success { schema, hints } => types_names_unique(schema.types)
                && types_itf_obj_interfaces(schema.types),
            MergeResultV::Failure { schema, errors, hints } => true,
        }),
{
    let sorted = sort_by_name(input);
    let toks = crate::merge::tokens_of_v(sorted);
    let d0 = crate::bootstrap::with_core_feature_join_v(
        crate::bootstrap::with_core_feature_link_v(crate::bootstrap::empty_document_v()),
        sorted,
        toks,
    );
    assert(types_names_unique(d0.types)) by {
        reveal_strlit("link__Purpose");
        reveal_strlit("link__Import");
        reveal_strlit("join__FieldSet");
        reveal_strlit("join__Graph");
        assert(d0.types.len() == 4);
        assert("link__Purpose"@.len() == 13);
        assert("link__Import"@.len() == 12);
        assert("join__FieldSet"@.len() == 14);
        assert("join__Graph"@.len() == 11);
    }
    assert(types_itf_obj_interfaces(d0.types)) by {
        assert forall|k: int| 0 <= k < d0.types.len() implies ((#[trigger] d0.types[k]).def
            is Interface || unmarked_dirs(def_directives(d0.types[k].def))) by {
            assert(def_directives(d0.types[k].def) =~= Seq::<crate::document::DirectiveV>::empty());
        }
    }
    lemma_merge_all_interface_object(d0, Seq::empty(), sorted, toks);
}

} // verus!
